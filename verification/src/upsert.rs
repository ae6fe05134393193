//! The upsert state machine.
//!
//! Per target the identity record is in one of two states: `Uncreated` (no
//! message id on record) or `Created` (an id on record). A tick plans an
//! action from the current state — create a brand-new message, or edit the
//! recorded one — and commits the outcome of the send afterwards. The
//! transition `Uncreated -> Created` happens at most once and is permanent:
//! an id, once recorded, is never cleared or replaced by a tick.
use vstd::prelude::*;

use crate::record::DataJson;
use crate::record::Target;

verus! {

/// What a tick decides to do with the status message of a target.
#[derive(Clone, Copy, Debug, PartialEq, Eq)]
pub enum UpsertAction {
    /// No message on record: create a new one.
    Create,
    /// A message is on record: edit it in place.
    Edit(u64),
}

/// What came back from the messaging channel for one send.
#[derive(Clone, Copy, Debug, PartialEq, Eq)]
pub enum SendOutcome {
    /// The remote call succeeded; the message now carries this id.
    Delivered(u64),
    /// The remote call failed; nothing is known to have been written.
    SendFailed,
}

/// The action a tick takes for `target` given the current record.
pub open spec fn spec_plan(d: DataJson, target: Target) -> UpsertAction {
    match d.spec_get(target) {
        Option::None => UpsertAction::Create,
        Option::Some(id) => UpsertAction::Edit(id),
    }
}

/// The record after committing one send outcome.
///
/// Only a delivered creation changes the record; a delivered edit keeps the
/// id it edited, and a failure leaves everything for the next tick to retry.
pub open spec fn spec_commit(
    d: DataJson,
    target: Target,
    action: UpsertAction,
    outcome: SendOutcome,
) -> DataJson {
    match (action, outcome) {
        (UpsertAction::Create, SendOutcome::Delivered(id)) => d.with_id(target, id),
        _ => d,
    }
}

/// One whole tick of `target`: plan from the record, then commit the outcome.
pub open spec fn spec_tick(d: DataJson, target: Target, outcome: SendOutcome) -> DataJson {
    spec_commit(d, target, spec_plan(d, target), outcome)
}

/// The record after a run of consecutive ticks of one target.
pub open spec fn run_ticks(d: DataJson, target: Target, outcomes: Seq<SendOutcome>) -> DataJson
    decreases outcomes.len(),
{
    if outcomes.len() == 0 {
        d
    } else {
        run_ticks(spec_tick(d, target, outcomes[0]), target, outcomes.drop_first())
    }
}

/// Plans the action of one tick from the current record: create while
/// `Uncreated`, edit the recorded message once `Created`.
pub fn plan_upsert(d: &DataJson, target: Target) -> (action: UpsertAction)
    ensures
        action == spec_plan(*d, target),
{
    match d.get(target) {
        Option::None => UpsertAction::Create,
        Option::Some(id) => UpsertAction::Edit(id),
    }
}

/// Commits the outcome of the send a tick performed.
///
/// Returns whether the record changed and must be persisted: true exactly
/// when a creation was delivered, the one moment an id is recorded.
pub fn commit_outcome(
    d: &mut DataJson,
    target: Target,
    action: UpsertAction,
    outcome: SendOutcome,
) -> (persist: bool)
    ensures
        *final(d) == spec_commit(*old(d), target, action, outcome),
        persist == (action == UpsertAction::Create && outcome matches SendOutcome::Delivered(_)),
    {
    match (action, outcome) {
        (UpsertAction::Create, SendOutcome::Delivered(id)) => {
            d.record_sent(target, id);
            true
        },
        _ => false,
    }
}

/// Once an id is on record for a target, any run of ticks of that target
/// keeps exactly that id, whatever each send returned.
pub proof fn lemma_created_id_stable(
    d: DataJson,
    target: Target,
    id: u64,
    outcomes: Seq<SendOutcome>,
)
    requires
        d.spec_get(target) == Some(id),
    ensures
        run_ticks(d, target, outcomes).spec_get(target) == Some(id),
    decreases outcomes.len(),
{
    if outcomes.len() > 0 {
        let d1 = spec_tick(d, target, outcomes[0]);
        assert(spec_plan(d, target) == UpsertAction::Edit(id));
        assert(d1 == d);
        lemma_created_id_stable(d1, target, id, outcomes.drop_first());
    }
}

/// Idempotent creation: from `Uncreated`, the tick plans a creation; one
/// delivered creation records exactly the delivered id; and after it no
/// later tick of the target ever plans a creation again, whatever the
/// outcomes of those ticks.
pub proof fn lemma_idempotent_creation(
    d: DataJson,
    target: Target,
    id: u64,
    outcomes: Seq<SendOutcome>,
)
    requires
        d.spec_get(target) == None::<u64>,
    ensures
        spec_plan(d, target) == UpsertAction::Create,
        spec_tick(d, target, SendOutcome::Delivered(id)).spec_get(target) == Some(id),
        forall|i: int|
            0 <= i <= outcomes.len() ==> #[trigger] spec_plan(
                run_ticks(
                    spec_tick(d, target, SendOutcome::Delivered(id)),
                    target,
                    outcomes.take(i),
                ),
                target,
            ) == UpsertAction::Edit(id),
{
    let d1 = spec_tick(d, target, SendOutcome::Delivered(id));
    assert(d1.spec_get(target) == Some(id));
    assert forall|i: int| 0 <= i <= outcomes.len() implies #[trigger] spec_plan(
        run_ticks(d1, target, outcomes.take(i)),
        target,
    ) == UpsertAction::Edit(id) by {
        lemma_created_id_stable(d1, target, id, outcomes.take(i));
    }
}

/// Edit stability: once `Created`, consecutive ticks never change the
/// recorded message id, regardless of the rendered payloads and of what each
/// send returned.
pub proof fn lemma_edit_stability(
    d: DataJson,
    target: Target,
    id: u64,
    outcomes: Seq<SendOutcome>,
)
    requires
        d.spec_get(target) == Some(id),
    ensures
        run_ticks(d, target, outcomes).spec_get(target) == d.spec_get(target),
{
    lemma_created_id_stable(d, target, id, outcomes);
}

/// A single tick of one target never touches the record of another target,
/// nor the feature counters, whatever its outcome was.
pub proof fn lemma_tick_isolated(d: DataJson, target: Target, outcome: SendOutcome)
    ensures
        forall|t: Target| t != target ==> #[trigger] spec_tick(
            d,
            target,
            outcome,
        ).spec_get(t) == d.spec_get(t),
        spec_tick(d, target, outcome).suggestion_count == d.suggestion_count,
        spec_tick(d, target, outcome).bug_report_count == d.bug_report_count,
{
}

/// Failure isolation: a run of ticks of target A — succeeding, failing, or
/// mixed — leaves the record of any other target B exactly as it was.
pub proof fn lemma_failure_isolation(
    d: DataJson,
    target_a: Target,
    target_b: Target,
    outcomes: Seq<SendOutcome>,
)
    requires
        target_a != target_b,
    ensures
        run_ticks(d, target_a, outcomes).spec_get(target_b) == d.spec_get(target_b),
    decreases outcomes.len(),
{
    if outcomes.len() > 0 {
        lemma_tick_isolated(d, target_a, outcomes[0]);
        lemma_failure_isolation(
            spec_tick(d, target_a, outcomes[0]),
            target_a,
            target_b,
            outcomes.drop_first(),
        );
    }
}

} // verus!
