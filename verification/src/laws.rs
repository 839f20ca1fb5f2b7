//! What holds of the queue and of the workflow over every state and every
//! run of operations.

use crate::queue::{QueueState, SetName};
use crate::score_set::{due, lemma_due_live_partition, lemma_first_exists};
use crate::workflow::{ActionView, EventView, ItemDetailView, Outcome, Workflow};
use vstd::prelude::*;

verus! {

/// An admission never makes an identifier a member of both sets.
pub proof fn lemma_admission_keeps_disjoint(q: QueueState, id: u32, now: u64)
    requires
        q.disjoint(),
    ensures
        q.admit_item(id, now).disjoint(),
{
}

/// No run of admissions, each at its own time, makes an identifier a member
/// of both sets.
pub proof fn lemma_admissions_keep_disjoint(q: QueueState, calls: Seq<(u32, u64)>)
    requires
        q.disjoint(),
    ensures
        q.admit_each(calls).disjoint(),
    decreases calls.len(),
{
    if calls.len() > 0 {
        lemma_admissions_keep_disjoint(q, calls.drop_last());
    }
}

/// No batch of admissions at one time makes an identifier a member of both
/// sets.
pub proof fn lemma_batch_keeps_disjoint(q: QueueState, ids: Seq<u32>, now: u64)
    requires
        q.disjoint(),
    ensures
        q.admit_all(ids, now).disjoint(),
    decreases ids.len(),
{
    if ids.len() > 0 {
        lemma_batch_keeps_disjoint(q, ids.drop_last(), now);
    }
}

/// Starting from the empty queue, no run of admissions makes an identifier a
/// member of both sets.
pub proof fn lemma_admissions_from_empty_disjoint(cooldown_secs: u64, calls: Seq<(u32, u64)>)
    ensures
        QueueState::empty(cooldown_secs).admit_each(calls).disjoint(),
{
    lemma_admissions_keep_disjoint(QueueState::empty(cooldown_secs), calls);
}

/// Withdrawing and reaping keep the two sets disjoint, and so does retiring
/// an identifier that is not pending.
pub proof fn lemma_other_operations_keep_disjoint(
    q: QueueState,
    id: u32,
    which: SetName,
    now: u64,
)
    requires
        q.disjoint(),
    ensures
        q.withdraw().disjoint(),
        q.reap(which, now).disjoint(),
        q.sweep(now).disjoint(),
        !q.pending.contains_key(id) ==> q.retire(id, now).disjoint(),
{
}

/// Only an admission makes an identifier pending: withdrawing, retiring and
/// reaping add no member to `pending`.
pub proof fn lemma_only_admission_fills_pending(
    q: QueueState,
    id: u32,
    retired: u32,
    which: SetName,
    now: u64,
)
    requires
        !q.pending.contains_key(id),
    ensures
        !q.withdraw().pending.contains_key(id),
        !q.retire(retired, now).pending.contains_key(id),
        !q.reap(which, now).pending.contains_key(id),
        !q.sweep(now).pending.contains_key(id),
{
}

/// What a worker does to the queue: it withdraws an item, or it retires one.
pub enum WorkerStep {
    Withdraw,
    Retire { id: u32, now: u64 },
}

/// The queue after the steps of `steps`, in order.
pub open spec fn worked(q: QueueState, steps: Seq<WorkerStep>) -> QueueState
    decreases steps.len(),
{
    if steps.len() == 0 {
        q
    } else {
        match steps.last() {
            WorkerStep::Withdraw => worked(q, steps.drop_last()).withdraw(),
            WorkerStep::Retire { id, now } => worked(q, steps.drop_last()).retire(id, now),
        }
    }
}

/// Whatever other workers withdraw and retire between the withdrawal of an
/// item and its retirement, the item is not pending again before it is
/// retired, and once retired it is a member of `cooldown` and not of
/// `pending`.
pub proof fn lemma_workers_do_not_requeue(
    q: QueueState,
    steps: Seq<WorkerStep>,
    now: u64,
)
    requires
        q.next() is Some,
    ensures
        !worked(q.withdraw(), steps).pending.contains_key(q.next()->0),
        !worked(q.withdraw(), steps).retire(q.next()->0, now).pending.contains_key(q.next()->0),
        worked(q.withdraw(), steps).retire(q.next()->0, now).cooldown.contains_key(q.next()->0),
    decreases steps.len(),
{
    if steps.len() > 0 {
        lemma_workers_do_not_requeue(q, steps.drop_last(), now);
    }
}

/// A second admission of the same identifier, with no withdrawal between the
/// two, is refused and changes nothing; unless the identifier was cooling
/// down, it is pending after both, and the two admissions together added at
/// most one member to `pending`.
pub proof fn lemma_admission_idempotent(q: QueueState, id: u32, first_time: u64, second_time: u64)
    requires
        q.valid(),
    ensures
        !q.admit_item(id, first_time).admits(id),
        q.admit_item(id, first_time).admit_item(id, second_time) == q.admit_item(id, first_time),
        !q.cooldown.contains_key(id) ==> q.admit_item(id, first_time).pending.contains_key(id),
        q.admit_item(id, first_time).admit_item(id, second_time).pending.dom().len() == (if q.admits(
            id,
        ) {
            q.pending.dom().len() + 1
        } else {
            q.pending.dom().len()
        }),
{
}

/// The identifiers among `ids` that the queue would admit: those that are
/// in neither set.
pub open spec fn fresh(q: QueueState, ids: Seq<u32>) -> Set<u32> {
    Set::new(|id: u32| ids.contains(id) && q.admits(id))
}

/// A batch of admissions admits each identifier that is in neither set
/// once, however often the batch names it, and nothing else: the pending
/// items afterwards are those from before and the fresh ones, the fresh ones
/// scored with the time of the batch, `cooldown` is as before, and the count
/// of admissions is the number of fresh identifiers.
pub proof fn lemma_batch_admits_each_once(q: QueueState, ids: Seq<u32>, now: u64)
    requires
        q.valid(),
    ensures
        q.admit_all(ids, now).valid(),
        q.admit_all(ids, now).cooldown == q.cooldown,
        q.admit_all(ids, now).cooldown_secs == q.cooldown_secs,
        forall|id: u32|
            q.admit_all(ids, now).pending.contains_key(id) <==> q.pending.contains_key(id) || fresh(
                q,
                ids,
            ).contains(id),
        forall|id: u32|
            q.pending.contains_key(id) ==> q.admit_all(ids, now).pending[id] == q.pending[id],
        forall|id: u32| fresh(q, ids).contains(id) ==> q.admit_all(ids, now).pending[id] == now,
        fresh(q, ids).finite(),
        q.admitted_count(ids, now) == fresh(q, ids).len(),
        q.admit_all(ids, now).pending.dom().len() == q.pending.dom().len() + fresh(q, ids).len(),
    decreases ids.len(),
{
    if ids.len() == 0 {
        assert(fresh(q, ids) =~= Set::<u32>::empty());
    } else {
        let front = ids.drop_last();
        let x = ids.last();
        lemma_batch_admits_each_once(q, front, now);
        let before = q.admit_all(front, now);
        assert forall|id: u32| ids.contains(id) <==> front.contains(id) || id == x by {
            if ids.contains(id) {
                let i = choose|i: int| 0 <= i < ids.len() && ids[i] == id;
                if i < front.len() {
                    assert(front[i] == id);
                }
            }
        }
        if before.admits(x) {
            assert(fresh(q, ids) =~= fresh(q, front).insert(x));
        } else {
            assert(fresh(q, ids) =~= fresh(q, front));
        }
    }
}

/// The results of `n` withdrawals in a row.
pub open spec fn withdrawals(q: QueueState, n: nat) -> Seq<Option<u32>>
    decreases n,
{
    if n == 0 {
        Seq::empty()
    } else {
        seq![q.next()] + withdrawals(q.withdraw(), (n - 1) as nat)
    }
}

/// The queue after `n` withdrawals in a row.
pub open spec fn after_withdrawals(q: QueueState, n: nat) -> QueueState
    decreases n,
{
    if n == 0 {
        q
    } else {
        after_withdrawals(q.withdraw(), (n - 1) as nat)
    }
}

/// Of `n` withdrawals against a queue with `m` pending items, the first `m`
/// (or all, where `n` is smaller) return an item that was pending, no two of
/// them the same, and every later one returns `None`.
pub proof fn lemma_withdrawals_exclusive(q: QueueState, n: nat)
    requires
        q.valid(),
    ensures
        withdrawals(q, n).len() == n,
        forall|i: int|
            0 <= i < n ==> ((#[trigger] withdrawals(q, n)[i]) is Some <==> i < q.pending.dom().len()),
        forall|i: int|
            0 <= i < n && (#[trigger] withdrawals(q, n)[i]) is Some ==> q.pending.contains_key(
                withdrawals(q, n)[i]->0,
            ),
        forall|i: int, j: int|
            0 <= i < j < n && (#[trigger] withdrawals(q, n)[i]) is Some && (#[trigger] withdrawals(
                q,
                n,
            )[j]) is Some ==> withdrawals(q, n)[i] != withdrawals(q, n)[j],
        after_withdrawals(q, n).valid(),
        after_withdrawals(q, n).cooldown == q.cooldown,
        after_withdrawals(q, n).pending.dom().len() == (if n <= q.pending.dom().len() {
            q.pending.dom().len() - n
        } else {
            0
        }),
    decreases n,
{
    if n > 0 {
        let results = withdrawals(q, n);
        let later = withdrawals(q.withdraw(), (n - 1) as nat);
        if q.pending.dom().len() > 0 {
            lemma_first_exists(q.pending);
        }
        lemma_withdrawals_exclusive(q.withdraw(), (n - 1) as nat);
        assert forall|i: int| 0 < i < n implies #[trigger] results[i] == later[i - 1] by {}
    }
}

/// Reaping removes a member whose score is at most the time of the reap and
/// keeps, with its score, a member whose score is later: one scored exactly
/// `now` leaves, one scored `now + 1` stays.
pub proof fn lemma_reap_boundary(q: QueueState, which: SetName, id: u32, now: u64)
    requires
        q.set(which).contains_key(id),
    ensures
        q.reap(which, now).set(which).contains_key(id) <==> q.set(which)[id] > now,
        q.set(which)[id] == now ==> !q.reap(which, now).set(which).contains_key(id),
        q.set(which)[id] == now + 1 ==> q.reap(which, now).set(which).contains_key(id),
        q.reap(which, now).set(which).contains_key(id) ==> q.reap(which, now).set(which)[id]
            == q.set(which)[id],
{
}

/// A reap takes from the named set exactly the members that were due, leaves
/// the other set as it was, and the members it leaves and the members it
/// takes together are the members there were.
pub proof fn lemma_reap_accounts(q: QueueState, which: SetName, now: u64)
    requires
        q.valid(),
    ensures
        q.reap(which, now).valid(),
        q.reap(which, now).set(which).dom().len() + due(q.set(which), now).dom().len() == q.set(
            which,
        ).dom().len(),
        forall|id: u32|
            q.set(which).contains_key(id) ==> (q.reap(which, now).set(which).contains_key(id) <==> !due(
                q.set(which),
                now,
            ).contains_key(id)),
        which == SetName::Pending ==> q.reap(which, now).cooldown == q.cooldown,
        which == SetName::Cooldown ==> q.reap(which, now).pending == q.pending,
{
    lemma_due_live_partition(q.set(which), now);
}

/// An item retired at time `then` stays in `cooldown` through every reap
/// before `then` plus the cooldown and leaves it with any reap at or after
/// that time; unless it is pending, it can be admitted again exactly from
/// then on.
pub proof fn lemma_cooldown_release(q: QueueState, id: u32, then: u64, now: u64)
    requires
        q.release_time(then) <= u64::MAX,
    ensures
        q.retire(id, then).reap(SetName::Cooldown, now).cooldown.contains_key(id) <==> now
            < q.release_time(then),
        !q.retire(id, then).admits(id),
        !q.pending.contains_key(id) ==> (q.retire(id, then).reap(SetName::Cooldown, now).admits(id)
            <==> now >= q.release_time(then)),
{
}

/// The item that a withdrawal returns is no longer pending, and once it is
/// retired it is a member of `cooldown`, scored with the time of its release,
/// and still not pending.
pub proof fn lemma_withdrawn_then_retired(q: QueueState, now: u64)
    requires
        q.next() is Some,
        q.release_time(now) <= u64::MAX,
    ensures
        q.pending.contains_key(q.next()->0),
        !q.withdraw().pending.contains_key(q.next()->0),
        !q.withdraw().retire(q.next()->0, now).pending.contains_key(q.next()->0),
        q.withdraw().retire(q.next()->0, now).cooldown.contains_key(q.next()->0),
        q.withdraw().retire(q.next()->0, now).cooldown[q.next()->0] == q.release_time(now),
{
}

/// The state of a workflow after the events of `events`, in order.
pub open spec fn run(start: Workflow, events: Seq<EventView>) -> Workflow
    decreases events.len(),
{
    if events.len() == 0 {
        start
    } else {
        run(start, events.drop_last()).next(events.last()).0
    }
}

/// The actions that a workflow asks for on the events of `events`, one for
/// each event, in order.
pub open spec fn actions(start: Workflow, events: Seq<EventView>) -> Seq<ActionView>
    decreases events.len(),
{
    if events.len() == 0 {
        Seq::empty()
    } else {
        actions(start, events.drop_last()).push(
            run(start, events.drop_last()).next(events.last()).1,
        )
    }
}

/// How many steps a workflow can still take before it has ended.
pub open spec fn steps_left(w: Workflow) -> nat {
    match w {
        Workflow::Withdrawn { .. } => 4,
        Workflow::Detail { .. } => 3,
        Workflow::Generated { .. } => 2,
        Workflow::Published { .. } => 1,
        Workflow::Retired { .. } => 0,
    }
}

/// The place, among the actions of a workflow, of the retirement that ends
/// it with the given outcome.
pub open spec fn retired_at(outcome: Outcome) -> int {
    match outcome {
        Outcome::NoDetail => 0,
        Outcome::Filtered => 0,
        Outcome::GenerateFailed => 1,
        Outcome::PublishFailed => 2,
        Outcome::Published(_) => 3,
    }
}

/// Whether `asked` is what a workflow of item `id` that has reached state
/// `now` can have asked for since the fetch of the detail: a generation, then
/// a publication for `id`, then the pacing delay, as far as the workflow got;
/// and, once it has ended, the retirement of `id` and after it nothing.
pub open spec fn well_shaped(id: u32, now: Workflow, asked: Seq<ActionView>) -> bool {
    let reached = match now {
        Workflow::Retired { outcome, .. } => retired_at(outcome),
        _ => asked.len() as int,
    };
    &&& now.item() == id
    &&& reached <= asked.len()
    &&& reached >= 1 ==> asked[0] is Generate
    &&& reached >= 2 ==> asked[1] is Publish && asked[1]->Publish_id == id
    &&& reached >= 3 ==> asked[2] is Pace
    &&& match now {
        Workflow::Retired { .. } => {
            &&& reached < asked.len()
            &&& asked[reached] == (ActionView::Retire { id })
            &&& forall|i: int| reached < i < asked.len() ==> #[trigger] asked[i] is Halt
        },
        _ => reached == 4 - steps_left(now),
    }
}

/// Each step keeps the item. Until the workflow has ended, each step takes
/// it further; a step asks for a retirement exactly when it ends the
/// workflow, and then for the retirement of the workflow's item. Once the
/// workflow has ended, a step changes nothing and asks for nothing.
pub proof fn lemma_step_advances(w: Workflow, event: EventView)
    ensures
        w.next(event).0.item() == w.item(),
        !(w is Retired) ==> steps_left(w.next(event).0) < steps_left(w),
        w.next(event).1 is Retire <==> !(w is Retired) && w.next(event).0 is Retired,
        w.next(event).1 is Retire ==> w.next(event).1 == (ActionView::Retire { id: w.item() }),
        w is Retired ==> w.next(event) == (w, ActionView::Halt),
{
}

/// Whatever the events, the actions of the workflow of a withdrawn item
/// have the one shape that `well_shaped` describes.
pub proof fn lemma_run_shape(id: u32, events: Seq<EventView>)
    ensures
        actions(Workflow::Withdrawn { id }, events).len() == events.len(),
        well_shaped(
            id,
            run(Workflow::Withdrawn { id }, events),
            actions(Workflow::Withdrawn { id }, events),
        ),
    decreases events.len(),
{
    if events.len() > 0 {
        lemma_run_shape(id, events.drop_last());
    }
}

/// The workflow of a withdrawn item has ended after four events at the
/// latest, whatever they are, and it has ended about the same item.
pub proof fn lemma_always_retired(id: u32, events: Seq<EventView>)
    requires
        events.len() >= 4,
    ensures
        run(Workflow::Withdrawn { id }, events) is Retired,
        run(Workflow::Withdrawn { id }, events).item() == id,
{
    lemma_run_shape(id, events);
}

/// The workflow of a withdrawn item asks for a retirement exactly if it has
/// ended; it asks for it once, for the withdrawn item, and for nothing
/// after it.
pub proof fn lemma_retired_exactly_once(id: u32, events: Seq<EventView>)
    ensures
        run(Workflow::Withdrawn { id }, events) is Retired <==> exists|i: int|
            0 <= i < events.len() && #[trigger] actions(Workflow::Withdrawn { id }, events)[i]
                == (ActionView::Retire { id }),
        forall|i: int|
            0 <= i < events.len() && #[trigger] actions(
                Workflow::Withdrawn { id },
                events,
            )[i] is Retire ==> actions(Workflow::Withdrawn { id }, events)[i] == (ActionView::Retire {
                id,
            }),
        forall|i: int, j: int|
            0 <= i < j < events.len() && #[trigger] actions(
                Workflow::Withdrawn { id },
                events,
            )[i] is Retire ==> #[trigger] actions(Workflow::Withdrawn { id }, events)[j] is Halt,
{
    lemma_run_shape(id, events);
}

/// The workflow of a withdrawn item asks for at most one publication, and
/// only for the withdrawn item. Where it ended with the reply published or
/// with the publication failed, it asked for one; where it ended earlier, it
/// asked for none.
pub proof fn lemma_one_publish_attempt(id: u32, events: Seq<EventView>)
    ensures
        forall|i: int, j: int|
            0 <= i < j < events.len() ==> !(#[trigger] actions(
                Workflow::Withdrawn { id },
                events,
            )[i] is Publish && #[trigger] actions(Workflow::Withdrawn { id }, events)[j] is Publish),
        forall|i: int|
            0 <= i < events.len() && #[trigger] actions(
                Workflow::Withdrawn { id },
                events,
            )[i] is Publish ==> actions(Workflow::Withdrawn { id }, events)[i]->Publish_id == id,
        match run(Workflow::Withdrawn { id }, events) {
            Workflow::Retired { outcome, .. } => (outcome is Published || outcome is PublishFailed)
                <==> exists|i: int|
                0 <= i < events.len() && #[trigger] actions(
                    Workflow::Withdrawn { id },
                    events,
                )[i] is Publish,
            _ => true,
        },
{
    lemma_run_shape(id, events);
}

/// Where the detail that was fetched is excluded by the filter, the workflow
/// ends at once as filtered, with the retirement of the item, and asks for
/// no generation and no publication, whatever follows.
pub proof fn lemma_excluded_item_gets_no_reply(
    id: u32,
    detail: ItemDetailView,
    events: Seq<EventView>,
)
    requires
        detail.excluded(),
        events.len() > 0,
        events[0] == EventView::DetailFetched(Some(detail)),
    ensures
        run(Workflow::Withdrawn { id }, events) == (Workflow::Retired {
            id,
            outcome: Outcome::Filtered,
        }),
        actions(Workflow::Withdrawn { id }, events)[0] == (ActionView::Retire { id }),
        forall|i: int|
            0 <= i < events.len() ==> !(#[trigger] actions(
                Workflow::Withdrawn { id },
                events,
            )[i] is Generate) && !(actions(Workflow::Withdrawn { id }, events)[i] is Publish),
    decreases events.len(),
{
    lemma_run_shape(id, events);
    if events.len() > 1 {
        lemma_excluded_item_gets_no_reply(id, detail, events.drop_last());
    }
}

/// Where the detail passes the filter and the generation then fails, the
/// workflow ends with the retirement of the item and asks for no
/// publication, whatever follows.
pub proof fn lemma_failed_generation_publishes_nothing(
    id: u32,
    detail: ItemDetailView,
    events: Seq<EventView>,
)
    requires
        !detail.excluded(),
        events.len() > 1,
        events[0] == EventView::DetailFetched(Some(detail)),
        events[1] == EventView::TextGenerated(None),
    ensures
        run(Workflow::Withdrawn { id }, events) == (Workflow::Retired {
            id,
            outcome: Outcome::GenerateFailed,
        }),
        actions(Workflow::Withdrawn { id }, events)[1] == (ActionView::Retire { id }),
        forall|i: int|
            0 <= i < events.len() ==> !(#[trigger] actions(
                Workflow::Withdrawn { id },
                events,
            )[i] is Publish),
    decreases events.len(),
{
    lemma_run_shape(id, events);
    if events.len() == 2 {
        assert(events.drop_last().last() == events[0]);
    } else {
        lemma_failed_generation_publishes_nothing(id, detail, events.drop_last());
    }
}

/// Whatever comes of the fetch, the filter, the generation and the
/// publication: once the workflow of the item that a withdrawal returned has
/// ended, it has asked for the retirement of that item, and the queue that
/// carries the retirement out holds the item in `cooldown` and not in
/// `pending`.
pub proof fn lemma_retirement_unconditional(q: QueueState, events: Seq<EventView>, now: u64)
    requires
        q.next() is Some,
        q.release_time(now) <= u64::MAX,
        run(Workflow::Withdrawn { id: q.next()->0 }, events) is Retired,
    ensures
        exists|i: int|
            0 <= i < events.len() && #[trigger] actions(
                Workflow::Withdrawn { id: q.next()->0 },
                events,
            )[i] == (ActionView::Retire { id: q.next()->0 }),
        q.withdraw().retire(q.next()->0, now).cooldown.contains_key(q.next()->0),
        !q.withdraw().retire(q.next()->0, now).pending.contains_key(q.next()->0),
{
    lemma_retired_exactly_once(q.next()->0, events);
}

} // verus!
