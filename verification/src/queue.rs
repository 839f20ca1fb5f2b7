//! The deduplicating work queue.
//!
//! The queue keeps two score-ordered sets of item identifiers. `pending`
//! holds the items that wait for processing, scored by the time of their
//! admission. `cooldown` holds the items that were processed, scored by the
//! time at which they may be discovered again. An identifier is admitted only
//! while it is in neither set.

use crate::score_set::{due, first, is_first, live, ScoreSet};
use vstd::prelude::*;

verus! {

/// The cooldown, in seconds, of a queue made without an explicit one.
pub const DEFAULT_COOLDOWN_SECS: u64 = 86400;

/// What an admission did.
#[derive(Clone, Copy, Debug, PartialEq, Eq, Structural)]
pub enum Admission {
    /// The identifier was in neither set and is now pending.
    Admitted,
    /// The identifier was in one of the sets already; nothing changed.
    AlreadyPresent,
}

/// The name of one of the queue's two sets.
#[derive(Clone, Copy, Debug, PartialEq, Eq, Structural)]
pub enum SetName {
    Pending,
    Cooldown,
}

/// The mark an item carries with respect to the queue.
#[derive(Clone, Copy, Debug, PartialEq, Eq, Structural)]
pub enum Mark {
    /// The item with this identifier has not been processed, or its cooldown
    /// has been reaped.
    UnProcessed(u32),
    /// The item has been processed and is cooling down.
    Processed,
}

/// The mathematical model of a queue: each set as a map from member to
/// score, and the cooldown in seconds.
pub struct QueueState {
    pub pending: Map<u32, u64>,
    pub cooldown: Map<u32, u64>,
    pub cooldown_secs: u64,
}

impl QueueState {
    /// The queue with no members.
    pub open spec fn empty(cooldown_secs: u64) -> QueueState {
        QueueState { pending: Map::empty(), cooldown: Map::empty(), cooldown_secs }
    }

    /// Both sets have finitely many members.
    pub open spec fn valid(self) -> bool {
        self.pending.dom().finite() && self.cooldown.dom().finite()
    }

    /// No identifier is a member of both sets.
    pub open spec fn disjoint(self) -> bool {
        forall|id: u32| !(self.pending.contains_key(id) && self.cooldown.contains_key(id))
    }

    /// The named set.
    pub open spec fn set(self, which: SetName) -> Map<u32, u64> {
        match which {
            SetName::Pending => self.pending,
            SetName::Cooldown => self.cooldown,
        }
    }

    /// Whether `id` would be admitted: it is in neither set.
    pub open spec fn admits(self, id: u32) -> bool {
        !self.pending.contains_key(id) && !self.cooldown.contains_key(id)
    }

    /// The queue after an attempt to admit `id` at time `now`.
    pub open spec fn admit_item(self, id: u32, now: u64) -> QueueState {
        if self.admits(id) {
            QueueState { pending: self.pending.insert(id, now), ..self }
        } else {
            self
        }
    }

    /// The queue after attempts to admit each of `ids`, in order, at `now`.
    pub open spec fn admit_all(self, ids: Seq<u32>, now: u64) -> QueueState
        decreases ids.len(),
    {
        if ids.len() == 0 {
            self
        } else {
            self.admit_all(ids.drop_last(), now).admit_item(ids.last(), now)
        }
    }

    /// How many of the attempts of `admit_all` admit their identifier.
    pub open spec fn admitted_count(self, ids: Seq<u32>, now: u64) -> nat
        decreases ids.len(),
    {
        if ids.len() == 0 {
            0
        } else {
            let before = self.admit_all(ids.drop_last(), now);
            let rest = self.admitted_count(ids.drop_last(), now);
            if before.admits(ids.last()) {
                rest + 1
            } else {
                rest
            }
        }
    }

    /// The queue after attempts to admit each identifier of `calls`, in
    /// order, each at its own time.
    pub open spec fn admit_each(self, calls: Seq<(u32, u64)>) -> QueueState
        decreases calls.len(),
    {
        if calls.len() == 0 {
            self
        } else {
            self.admit_each(calls.drop_last()).admit_item(calls.last().0, calls.last().1)
        }
    }

    /// A batch admits at most as many items as it has identifiers.
    pub proof fn lemma_admitted_count_bound(self, ids: Seq<u32>, now: u64)
        ensures
            self.admitted_count(ids, now) <= ids.len(),
        decreases ids.len(),
    {
        if ids.len() > 0 {
            self.lemma_admitted_count_bound(ids.drop_last(), now);
        }
    }

    /// The identifier that the next withdrawal returns: the first pending
    /// member, if there is one.
    pub open spec fn next(self) -> Option<u32> {
        first(self.pending)
    }

    /// The queue after one withdrawal.
    pub open spec fn withdraw(self) -> QueueState {
        match self.next() {
            Some(id) => QueueState { pending: self.pending.remove(id), ..self },
            None => self,
        }
    }

    /// The score that an item retired at `now` gets in `cooldown`.
    pub open spec fn release_time(self, now: u64) -> int {
        now + self.cooldown_secs
    }

    /// The queue after `id` was retired at time `now`.
    pub open spec fn retire(self, id: u32, now: u64) -> QueueState
        recommends
            self.release_time(now) <= u64::MAX,
    {
        QueueState { cooldown: self.cooldown.insert(id, self.release_time(now) as u64), ..self }
    }

    /// The queue after the named set was reaped at time `now`.
    pub open spec fn reap(self, which: SetName, now: u64) -> QueueState {
        match which {
            SetName::Pending => QueueState { pending: live(self.pending, now), ..self },
            SetName::Cooldown => QueueState { cooldown: live(self.cooldown, now), ..self },
        }
    }

    /// The queue after both sets were reaped at time `now`.
    pub open spec fn sweep(self, now: u64) -> QueueState {
        self.reap(SetName::Pending, now).reap(SetName::Cooldown, now)
    }

    /// The mark of `id`.
    pub open spec fn mark(self, id: u32) -> Mark {
        if self.cooldown.contains_key(id) {
            Mark::Processed
        } else {
            Mark::UnProcessed(id)
        }
    }
}

/// The rule of admission, from the two membership lookups.
pub fn admission(in_pending: bool, in_cooldown: bool) -> (r: Admission)
    ensures
        r == (if !in_pending && !in_cooldown {
            Admission::Admitted
        } else {
            Admission::AlreadyPresent
        }),
{
    if in_pending || in_cooldown {
        Admission::AlreadyPresent
    } else {
        Admission::Admitted
    }
}

/// The score with which an item retired at `now` enters `cooldown`, or
/// `None` where that time does not fit in 64 bits.
pub fn release_time(now: u64, cooldown_secs: u64) -> (r: Option<u64>)
    ensures
        r == (if now + cooldown_secs <= u64::MAX {
            Some((now + cooldown_secs) as u64)
        } else {
            None
        }),
{
    now.checked_add(cooldown_secs)
}

/// A deduplicating work queue with cooldown.
pub struct DedupQueue {
    pending: ScoreSet,
    cooldown: ScoreSet,
    cooldown_secs: u64,
}

impl View for DedupQueue {
    type V = QueueState;

    closed spec fn view(&self) -> QueueState {
        QueueState {
            pending: self.pending@,
            cooldown: self.cooldown@,
            cooldown_secs: self.cooldown_secs,
        }
    }
}

impl Default for DedupQueue {
    /// An empty queue with the default cooldown.
    fn default() -> (q: Self)
        ensures
            q@ == QueueState::empty(DEFAULT_COOLDOWN_SECS),
    {
        DedupQueue::new(DEFAULT_COOLDOWN_SECS)
    }
}

impl DedupQueue {
    /// The sets of a queue have finitely many members.
    pub proof fn lemma_valid(&self)
        ensures
            self@.valid(),
    {
        self.pending.lemma_finite();
        self.cooldown.lemma_finite();
    }

    /// An empty queue whose items cool down for `cooldown_secs` seconds.
    pub fn new(cooldown_secs: u64) -> (q: Self)
        ensures
            q@ == QueueState::empty(cooldown_secs),
    {
        DedupQueue { pending: ScoreSet::new(), cooldown: ScoreSet::new(), cooldown_secs }
    }

    /// The cooldown in seconds.
    pub fn cooldown_secs(&self) -> (r: u64)
        ensures
            r == self@.cooldown_secs,
    {
        self.cooldown_secs
    }

    /// Whether `id` is a member of the named set.
    pub fn contains(&self, which: SetName, id: u32) -> (r: bool)
        ensures
            r == self@.set(which).contains_key(id),
    {
        match which {
            SetName::Pending => self.pending.contains(id),
            SetName::Cooldown => self.cooldown.contains(id),
        }
    }

    /// The score of `id` in the named set, if it is a member.
    pub fn score_of(&self, which: SetName, id: u32) -> (r: Option<u64>)
        ensures
            r == (if self@.set(which).contains_key(id) {
                Some(self@.set(which)[id])
            } else {
                None
            }),
    {
        match which {
            SetName::Pending => self.pending.score_of(id),
            SetName::Cooldown => self.cooldown.score_of(id),
        }
    }

    /// The number of members of the named set.
    pub fn len(&self, which: SetName) -> (n: usize)
        ensures
            self@.valid(),
            n == self@.set(which).dom().len(),
    {
        proof {
            self.lemma_valid();
        }
        match which {
            SetName::Pending => self.pending.len(),
            SetName::Cooldown => self.cooldown.len(),
        }
    }

    /// The mark of `id`: processed while it cools down, unprocessed
    /// otherwise.
    pub fn mark(&self, id: u32) -> (r: Mark)
        ensures
            r == self@.mark(id),
    {
        if self.cooldown.contains(id) {
            Mark::Processed
        } else {
            Mark::UnProcessed(id)
        }
    }

    /// Admits `id` at time `now` unless it is a member of either set.
    pub fn admit_item(&mut self, id: u32, now: u64) -> (r: Admission)
        ensures
            final(self)@ == old(self)@.admit_item(id, now),
            r == (if old(self)@.admits(id) {
                Admission::Admitted
            } else {
                Admission::AlreadyPresent
            }),
    {
        let in_pending = self.pending.contains(id);
        let in_cooldown = self.cooldown.contains(id);
        match admission(in_pending, in_cooldown) {
            Admission::Admitted => {
                self.pending.add(id, now);
                Admission::Admitted
            },
            Admission::AlreadyPresent => Admission::AlreadyPresent,
        }
    }

    /// Admits each of `ids`, in order, at time `now`, and returns how many
    /// were admitted.
    pub fn admit_all(&mut self, ids: &Vec<u32>, now: u64) -> (admitted: usize)
        ensures
            final(self)@ == old(self)@.admit_all(ids@, now),
            admitted == old(self)@.admitted_count(ids@, now),
    {
        let mut admitted: usize = 0;
        let mut i: usize = 0;
        while i < ids.len()
            invariant
                i <= ids.len(),
                admitted <= i,
                self@ == old(self)@.admit_all(ids@.take(i as int), now),
                admitted == old(self)@.admitted_count(ids@.take(i as int), now),
            decreases ids.len() - i,
        {
            proof {
                assert(ids@.take(i + 1).drop_last() =~= ids@.take(i as int));
            }
            match self.admit_item(ids[i], now) {
                Admission::Admitted => {
                    admitted += 1;
                },
                Admission::AlreadyPresent => {},
            }
            i += 1;
        }
        proof {
            assert(ids@.take(ids@.len() as int) =~= ids@);
        }
        admitted
    }

    /// Removes the first pending item and returns its identifier, or returns
    /// `None` where nothing is pending.
    pub fn withdraw(&mut self) -> (r: Option<u32>)
        ensures
            r == old(self)@.next(),
            final(self)@ == old(self)@.withdraw(),
            r is None <==> old(self)@.pending.dom().len() == 0,
            r is Some ==> is_first(old(self)@.pending, r->0),
    {
        proof {
            self.lemma_valid();
        }
        match self.pending.pop_min() {
            Some(e) => Some(e.id),
            None => None,
        }
    }

    /// Puts `id` into `cooldown` until `now` plus the cooldown, whatever its
    /// score there was before.
    pub fn retire(&mut self, id: u32, now: u64)
        requires
            old(self)@.release_time(now) <= u64::MAX,
        ensures
            final(self)@ == old(self)@.retire(id, now),
    {
        let until: u64 = now + self.cooldown_secs;
        self.cooldown.add(id, until);
    }

    /// Retires `id` at `now` where the time of its release fits in 64 bits,
    /// and says whether it did; where it does not fit, nothing changes.
    pub fn try_retire(&mut self, id: u32, now: u64) -> (retired: bool)
        ensures
            retired == (old(self)@.release_time(now) <= u64::MAX),
            retired ==> final(self)@ == old(self)@.retire(id, now),
            !retired ==> final(self)@ == old(self)@,
    {
        match release_time(now, self.cooldown_secs) {
            Some(until) => {
                self.cooldown.add(id, until);
                true
            },
            None => false,
        }
    }

    /// Removes from the named set every member whose score is at most `now`
    /// and returns how many were removed.
    pub fn reap(&mut self, which: SetName, now: u64) -> (removed: usize)
        ensures
            final(self)@ == old(self)@.reap(which, now),
            due(old(self)@.set(which), now).dom().finite(),
            removed == due(old(self)@.set(which), now).dom().len(),
    {
        match which {
            SetName::Pending => self.pending.remove_up_to(now),
            SetName::Cooldown => self.cooldown.remove_up_to(now),
        }
    }

    /// Reaps both sets at time `now` and returns how many members left
    /// `pending` and how many left `cooldown`.
    pub fn sweep(&mut self, now: u64) -> (removed: (usize, usize))
        ensures
            final(self)@ == old(self)@.sweep(now),
            removed.0 == due(old(self)@.pending, now).dom().len(),
            removed.1 == due(old(self)@.cooldown, now).dom().len(),
    {
        let from_pending = self.reap(SetName::Pending, now);
        let from_cooldown = self.reap(SetName::Cooldown, now);
        (from_pending, from_cooldown)
    }
}

} // verus!
