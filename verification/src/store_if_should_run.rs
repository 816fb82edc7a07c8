//! Whole runs of a store operation after a decision, which are runs of the store operation once the
//! content is found to be wanted.

use vstd::prelude::*;

use crate::databases::Databases;
use crate::distance::{max_distance, xor_distance};
use crate::error::ErrorView;
use crate::laws::law_wanted_content_is_not_refused;
use crate::operation::{done, store_if_should_next, store_if_should_start, store_next, storing};
use crate::operation::{StoreIfShouldOpView, StoreOpView};
use crate::request::{ReplyView, StepView};
use crate::storage::{is_master_accumulator, StorageState};
use crate::store_run::law_store_refuses_what_lies_outside;
use crate::store_run::{Exchange, StoreRun, StoreStart};

verus! {

/// Where a store operation stands after some replies, whatever they say. Once it is over, no reply
/// matters.
pub open spec fn store_after(
    state: StorageState,
    step: StepView<StoreOpView, ()>,
    replies: Seq<ReplyView>,
) -> (StorageState, StepView<StoreOpView, ()>)
    decreases replies.len(),
{
    match step {
        StepView::Ask { then, .. } if replies.len() > 0 => {
            let (next_state, next_step) = store_next(state, then, replies[0]);
            store_after(next_state, next_step, replies.skip(1))
        },
        _ => (state, step),
    }
}

/// The same for a store operation after a decision.
pub open spec fn store_if_should_after(
    state: StorageState,
    step: StepView<StoreIfShouldOpView, bool>,
    replies: Seq<ReplyView>,
) -> (StorageState, StepView<StoreIfShouldOpView, bool>)
    decreases replies.len(),
{
    match step {
        StepView::Ask { then, .. } if replies.len() > 0 => {
            let (next_state, next_step) = store_if_should_next(state, then, replies[0]);
            store_if_should_after(next_state, next_step, replies.skip(1))
        },
        _ => (state, step),
    }
}

/// Once it has been decided to store, whatever the replies say, the storage goes through the states
/// of the store operation, the requests are those of the store operation, and the result says that
/// the content was stored, or is the error of the store operation.
pub proof fn law_decided_store_goes_on_as_store(
    state: StorageState,
    step: StepView<StoreOpView, ()>,
    replies: Seq<ReplyView>,
)
    ensures
        ({
            let (end_state, end_step) = store_after(state, step, replies);
            store_if_should_after(state, storing(step), replies) == (end_state, storing(end_step))
        }),
    decreases replies.len(),
{
    if let StepView::Ask { then, .. } = step {
        if replies.len() > 0 {
            let (next_state, next_step) = store_next(state, then, replies[0]);
            law_decided_store_goes_on_as_store(next_state, next_step, replies.skip(1));
        }
    }
}

/// A step of the store operation, taken after a decision, asks the same of the databases. If the
/// store operation ends, the result is that the content was stored, or the same error.
pub proof fn law_decided_step_says_what_the_store_step_says(step: StepView<StoreOpView, ()>)
    ensures
        match (step, storing(step)) {
            (StepView::Ask { request, then }, StepView::Ask { request: asked, then: next }) => {
                &&& asked == request
                &&& next matches StoreIfShouldOpView::Store { op }
                &&& op == then
            },
            (StepView::Done { result: Ok(_) }, StepView::Done { result }) => result == Ok::<
                bool,
                ErrorView,
            >(true),
            (StepView::Done { result: Err(error) }, StepView::Done { result }) => result == Err::<
                bool,
                ErrorView,
            >(error),
            _ => false,
        },
{
}

/// A store operation after a decision under way: where storage, databases and operation stand.
#[verifier::ext_equal]
pub struct StoreIfShouldRun {
    pub state: StorageState,
    pub databases: Databases,
    pub step: StepView<StoreIfShouldOpView, bool>,
}

impl StoreIfShouldRun {
    /// Whether an exchange answers what the operation asks.
    pub open spec fn takes(self, exchange: Exchange) -> bool {
        self.step matches StepView::Ask { request, .. } && self.databases.answer(
            request,
            exchange.reply,
            exchange.after,
        )
    }

    /// The operation after an exchange.
    pub open spec fn after(self, exchange: Exchange) -> StoreIfShouldRun {
        let (state, step) = store_if_should_next(self.state, self.step->then, exchange.reply);
        StoreIfShouldRun { state, databases: exchange.after, step }
    }

    /// Whether a sequence of exchanges leads from here to some end.
    pub open spec fn reaches(self, exchanges: Seq<Exchange>, end: StoreIfShouldRun) -> bool
        decreases exchanges.len(),
    {
        if exchanges.len() == 0 {
            end == self
        } else {
            self.takes(exchanges[0]) && self.after(exchanges[0]).reaches(exchanges.skip(1), end)
        }
    }
}

impl StoreStart {
    /// The operation after a decision, before its first request is answered.
    pub open spec fn run_if_should(self) -> StoreIfShouldRun {
        StoreIfShouldRun {
            state: self.state,
            databases: self.databases,
            step: store_if_should_start(self.state, self.key, self.value),
        }
    }

    /// The operation once it has ended and nothing has been changed.
    pub open spec fn ended_with(self, result: Result<bool, ErrorView>) -> StoreIfShouldRun {
        StoreIfShouldRun { state: self.state, databases: self.databases, step: done(result) }
    }

    /// Whether a run of the store operation, seen as one after a decision, leads to some end.
    pub open spec fn stores(self, exchanges: Seq<Exchange>, end: StoreIfShouldRun) -> bool {
        exists|run: StoreRun| #[trigger]
            self.run().reaches(exchanges, run) && end == decided(run)
    }
}

/// A run of the store operation as one after a decision.
pub open spec fn decided(run: StoreRun) -> StoreIfShouldRun {
    StoreIfShouldRun {
        state: run.state,
        databases: run.databases,
        step: storing(run.step),
    }
}

/// A run that goes on from a decision to store is a run of the store operation.
proof fn lemma_decided_run(run: StoreRun, exchanges: Seq<Exchange>, end: StoreIfShouldRun)
    requires
        decided(run).reaches(exchanges, end),
    ensures
        exists|store_end: StoreRun| #[trigger]
            run.reaches(exchanges, store_end) && end == decided(store_end),
    decreases exchanges.len(),
{
    if exchanges.len() == 0 {
        assert(run.reaches(exchanges, run));
    } else {
        let next = run.after(exchanges[0]);
        assert(run.takes(exchanges[0]));
        assert(decided(run).after(exchanges[0]) == decided(next));
        lemma_decided_run(next, exchanges.skip(1), end);
        let store_end = choose|store_end: StoreRun| #[trigger]
            next.reaches(exchanges.skip(1), store_end) && end == decided(store_end);
        assert(run.reaches(exchanges, store_end));
    }
}

/// A run that is over goes nowhere.
proof fn lemma_over(run: StoreIfShouldRun, exchanges: Seq<Exchange>, end: StoreIfShouldRun)
    requires
        run.step is Done,
        run.reaches(exchanges, end),
    ensures
        end == run,
{
}

/// A store operation after a decision runs as the store operation does if the content is the master
/// accumulator, or is not held yet and wanted. Otherwise it ends at once, changes nothing and says
/// that the content was not stored. A failure to tell whether the content is held is passed on.
pub proof fn law_store_if_should_runs_as_store(
    start: StoreStart,
    exchanges: Seq<Exchange>,
    end: StoreIfShouldRun,
)
    requires
        start.run_if_should().reaches(exchanges, end),
    ensures
        if is_master_accumulator(start.key.content_id) {
            start.stores(exchanges, end)
        } else if exchanges.len() == 0 {
            end == start.run_if_should()
        } else {
            match exchanges[0].reply.held() {
                Ok(held) => {
                    &&& held == start.databases.content.contains_key(start.key.content_id)
                    &&& if !held && (start.state.radius >= max_distance() || xor_distance(
                        start.key.content_id,
                        start.state.node_id,
                    ) < start.state.radius) {
                        start.stores(exchanges.skip(1), end)
                    } else {
                        end == start.ended_with(Ok(false))
                    }
                },
                Err(error) => end == start.ended_with(Err(error)),
            }
        },
{
    if is_master_accumulator(start.key.content_id) {
        assert(start.run_if_should() == decided(start.run()));
        lemma_decided_run(start.run(), exchanges, end);
    } else if exchanges.len() > 0 {
        let next = start.run_if_should().after(exchanges[0]);
        assert(next.databases == start.databases);
        if next == decided(start.run()) {
            lemma_decided_run(start.run(), exchanges.skip(1), end);
        }
        if next.step is Done {
            lemma_over(next, exchanges.skip(1), end);
        }
    }
}

/// No run of a store operation after a decision ends with the content refused.
pub proof fn law_store_if_should_run_is_never_refused(
    start: StoreStart,
    exchanges: Seq<Exchange>,
    end: StoreIfShouldRun,
)
    requires
        start.key.content_id.len() == 32,
        start.state.radius <= max_distance(),
        start.run_if_should().reaches(exchanges, end),
    ensures
        end.step != (StepView::<StoreIfShouldOpView, bool>::Done {
            result: Err(ErrorView::OutsideDistanceError),
        }),
{
    law_store_if_should_runs_as_store(start, exchanges, end);
    let refused = StepView::<StoreIfShouldOpView, bool>::Done {
        result: Err(ErrorView::OutsideDistanceError),
    };
    if end.step == refused {
        let stored = if is_master_accumulator(start.key.content_id) {
            exchanges
        } else {
            exchanges.skip(1)
        };
        assert(start.stores(stored, end));
        let run = choose|run: StoreRun| #[trigger]
            start.run().reaches(stored, run) && end == decided(run);
        law_store_refuses_what_lies_outside(start, stored, run);
        if !is_master_accumulator(start.key.content_id) {
            law_wanted_content_is_not_refused(start.state, start.key, start.value);
        }
    }
}

} // verus!
