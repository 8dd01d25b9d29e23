//! The schedule of a run's batch writes: which batches may write now, under
//! a cap on how many write at once, and when all of them are done.

use vstd::prelude::*;

use crate::db::{
    batch_count, batch_items, concat_records, joined, plan_batches, records_of, Batch,
};
use crate::json::Tweet;
use crate::retry::{
    lemma_step_preserves_wf, Action, BatchOutcome, BatchState, ControllerView, PolicyView,
    RetryController, RetryPolicy, WriteEvent,
};

verus! {

/// How many posts go into one transaction.
pub const BATCH_SIZE: usize = 500;

/// How many transactions may be open at once.
pub const MAX_CONCURRENT_BATCHES: usize = 8;

/// How many of `batches` are in a state that `pick` selects.
pub open spec fn count_where(
    batches: Seq<ControllerView>,
    pick: spec_fn(BatchState) -> bool,
) -> nat
    decreases batches.len(),
{
    if batches.len() == 0 {
        0
    } else {
        count_where(batches.drop_last(), pick) + if pick(batches.last().state) {
            1nat
        } else {
            0nat
        }
    }
}

/// How many of `batches` hold a slot.
pub open spec fn count_in_flight(batches: Seq<ControllerView>) -> nat {
    count_where(batches, |s: BatchState| s.is_in_flight())
}

/// How many of `batches` have reached a terminal state.
pub open spec fn count_terminal(batches: Seq<ControllerView>) -> nat {
    count_where(batches, |s: BatchState| s.is_terminal())
}

/// Replacing one batch changes a count by what that batch contributed.
pub proof fn lemma_count_update(
    batches: Seq<ControllerView>,
    pick: spec_fn(BatchState) -> bool,
    index: int,
    next: ControllerView,
)
    requires
        0 <= index < batches.len(),
    ensures
        count_where(batches.update(index, next), pick) + (if pick(batches[index].state) {
            1int
        } else {
            0int
        }) == count_where(batches, pick) + (if pick(next.state) {
            1int
        } else {
            0int
        }),
    decreases batches.len(),
{
    let updated = batches.update(index, next);
    if index == batches.len() - 1 {
        assert(updated.drop_last() =~= batches.drop_last());
    } else {
        assert(updated.drop_last() =~= batches.drop_last().update(index, next));
        lemma_count_update(batches.drop_last(), pick, index, next);
    }
}

/// A count is at most the number of batches, and reaches it only where
/// every batch is selected.
pub proof fn lemma_count_bounds(batches: Seq<ControllerView>, pick: spec_fn(BatchState) -> bool)
    ensures
        count_where(batches, pick) <= batches.len(),
        count_where(batches, pick) == batches.len() <==> forall|i: int|
            0 <= i < batches.len() ==> pick(#[trigger] batches[i].state),
        count_where(batches, pick) == 0 <==> forall|i: int|
            0 <= i < batches.len() ==> !pick(#[trigger] batches[i].state),
    decreases batches.len(),
{
    if batches.len() > 0 {
        let front = batches.drop_last();
        lemma_count_bounds(front, pick);
        assert forall|i: int| 0 <= i < front.len() implies front[i] == batches[i] by {}
        if count_where(batches, pick) == batches.len() {
            assert forall|i: int| 0 <= i < batches.len() implies pick(
                #[trigger] batches[i].state,
            ) by {
                if i < front.len() {
                    assert(front[i] == batches[i]);
                }
            }
        }
        if forall|i: int| 0 <= i < batches.len() ==> pick(#[trigger] batches[i].state) {
            assert forall|i: int| 0 <= i < front.len() implies pick(#[trigger] front[i].state) by {
                assert(front[i] == batches[i]);
            }
        }
        if count_where(batches, pick) == 0 {
            assert forall|i: int| 0 <= i < batches.len() implies !pick(
                #[trigger] batches[i].state,
            ) by {
                if i < front.len() {
                    assert(front[i] == batches[i]);
                }
            }
        }
        if forall|i: int| 0 <= i < batches.len() ==> !pick(#[trigger] batches[i].state) {
            assert forall|i: int| 0 <= i < front.len() implies !pick(#[trigger] front[i].state) by {
                assert(front[i] == batches[i]);
            }
        }
    }
}

/// The state of a run's writes.
pub ghost struct WriterView {
    /// The most batches that may hold a slot at once.
    pub limit: nat,
    /// The batches, in planning order.
    pub batches: Seq<ControllerView>,
    /// How many batches have been given a slot so far. Slots go out in
    /// planning order, so these are the first `started` batches.
    pub started: nat,
}

impl WriterView {
    /// What holds of every state that the schedule reaches.
    pub open spec fn wf(self) -> bool {
        &&& self.limit >= 1
        &&& self.started <= self.batches.len()
        &&& forall|i: int| 0 <= i < self.batches.len() ==> (#[trigger] self.batches[i]).wf()
        &&& forall|i: int|
            0 <= i < self.batches.len() ==> ((#[trigger] self.batches[i]).state
                == BatchState::Pending <==> i >= self.started)
        &&& self.in_flight() <= self.limit
    }

    /// How many batches hold a slot.
    pub open spec fn in_flight(self) -> nat {
        count_in_flight(self.batches)
    }

    /// Every batch has reached a terminal state.
    pub open spec fn is_complete(self) -> bool {
        forall|i: int| 0 <= i < self.batches.len() ==> (#[trigger] self.batches[i]).state.is_terminal()
    }

    /// A batch is waiting and a slot is free.
    pub open spec fn can_start(self) -> bool {
        self.started < self.batches.len() && self.in_flight() < self.limit
    }

    /// The schedule of `count` batches that have just been planned.
    pub open spec fn initial(count: nat, limit: nat, policy: PolicyView) -> WriterView {
        WriterView {
            limit,
            batches: Seq::new(count, |i: int| ControllerView::initial(policy)),
            started: 0,
        }
    }

    /// The state after the next waiting batch was given a slot, where there
    /// is such a batch and a free slot; the same state otherwise.
    pub open spec fn start_next(self) -> WriterView {
        if self.can_start() {
            let index = self.started as int;
            WriterView {
                batches: self.batches.update(
                    index,
                    self.batches[index].step(WriteEvent::SlotGranted),
                ),
                started: self.started + 1,
                ..self
            }
        } else {
            self
        }
    }

    /// The state after `event` was handed to batch `index`. Slots are only
    /// given by `start_next`: a `SlotGranted` here changes nothing.
    pub open spec fn deliver(self, index: int, event: WriteEvent) -> WriterView {
        if 0 <= index < self.batches.len() && event != WriteEvent::SlotGranted {
            WriterView { batches: self.batches.update(index, self.batches[index].step(event)), ..self }
        } else {
            self
        }
    }
}

/// Giving out a slot keeps the schedule well formed: the cap holds.
pub proof fn lemma_start_next_preserves_wf(w: WriterView)
    requires
        w.wf(),
    ensures
        w.start_next().wf(),
        w.can_start() ==> w.start_next().in_flight() == w.in_flight() + 1,
{
    if w.can_start() {
        let index = w.started as int;
        let next = w.batches[index].step(WriteEvent::SlotGranted);
        lemma_step_preserves_wf(w.batches[index], WriteEvent::SlotGranted);
        lemma_count_update(w.batches, |s: BatchState| s.is_in_flight(), index, next);
    }
}

/// Handing an event to a batch keeps the schedule well formed, and never
/// raises the number of batches in flight.
pub proof fn lemma_deliver_preserves_wf(w: WriterView, index: int, event: WriteEvent)
    requires
        w.wf(),
    ensures
        w.deliver(index, event).wf(),
        w.deliver(index, event).in_flight() <= w.in_flight(),
{
    if 0 <= index < w.batches.len() && event != WriteEvent::SlotGranted {
        let next = w.batches[index].step(event);
        lemma_step_preserves_wf(w.batches[index], event);
        lemma_count_update(w.batches, |s: BatchState| s.is_in_flight(), index, next);
    }
}

/// A batch that ends gives up its slot, however it ends: a failed batch
/// holds back no other.
pub proof fn lemma_terminal_frees_slot(w: WriterView, index: int, event: WriteEvent)
    requires
        w.wf(),
        0 <= index < w.batches.len(),
        w.batches[index].state.is_in_flight(),
        w.deliver(index, event).batches[index].state.is_terminal(),
    ensures
        w.deliver(index, event).in_flight() + 1 == w.in_flight(),
{
    if event != WriteEvent::SlotGranted {
        let next = w.batches[index].step(event);
        lemma_count_update(w.batches, |s: BatchState| s.is_in_flight(), index, next);
    }
}

/// The schedule never stalls: while some batch has not ended, either a
/// batch is in flight or the next one can start.
pub proof fn lemma_never_stalls(w: WriterView)
    requires
        w.wf(),
        !w.is_complete(),
    ensures
        w.in_flight() > 0 || w.can_start(),
{
    if w.in_flight() == 0 {
        lemma_count_bounds(w.batches, |s: BatchState| s.is_in_flight());
        let i = choose|i: int| 0 <= i < w.batches.len() && !(#[trigger] w.batches[i]).state.is_terminal();
        assert(!w.batches[i].state.is_in_flight());
        assert(w.batches[i].state == BatchState::Pending);
    }
}

/// With a single slot, no two batches are in flight at once.
pub proof fn lemma_single_slot_excludes(w: WriterView, i: int, j: int)
    requires
        w.wf(),
        w.limit == 1,
        0 <= i < w.batches.len(),
        0 <= j < w.batches.len(),
        i != j,
    ensures
        !(w.batches[i].state.is_in_flight() && w.batches[j].state.is_in_flight()),
{
    if w.batches[i].state.is_in_flight() && w.batches[j].state.is_in_flight() {
        let pick = |s: BatchState| s.is_in_flight();
        let idle = ControllerView { state: BatchState::Pending, ..w.batches[i] };
        let others = w.batches.update(i, idle);
        lemma_count_update(w.batches, pick, i, idle);
        lemma_count_bounds(others, pick);
        assert(others[j] == w.batches[j]);
        assert(pick(others[j].state));
    }
}

/// The scheduler of a run's batch writes.
#[derive(Debug, Clone)]
pub struct Writer {
    limit: usize,
    batches: Vec<RetryController>,
    started: usize,
    in_flight: usize,
    finished: usize,
}

impl View for Writer {
    type V = WriterView;

    closed spec fn view(&self) -> WriterView {
        WriterView {
            limit: self.limit as nat,
            batches: self.batches.deep_view(),
            started: self.started as nat,
        }
    }
}

impl Writer {
    /// The fields agree with each other and with the schedule's rules.
    pub closed spec fn wf(&self) -> bool {
        &&& self@.wf()
        &&& self.in_flight == count_in_flight(self@.batches)
        &&& self.finished == count_terminal(self@.batches)
    }

    /// A well-formed scheduler has a well-formed schedule: in particular no
    /// more batches in flight than its limit.
    pub proof fn lemma_wf(&self)
        requires
            self.wf(),
        ensures
            self@.wf(),
    {
    }

    /// The schedule for `count` batches with at most `limit` of them in
    /// flight at once, each retried under `policy`. There is none for a
    /// limit of 0.
    pub fn new(count: usize, limit: usize, policy: RetryPolicy) -> (r: Option<Writer>)
        ensures
            r.is_some() == (limit > 0),
            r matches Some(w) ==> w.wf() && w@ == WriterView::initial(
                count as nat,
                limit as nat,
                policy@,
            ),
    {
        if limit == 0 {
            return None;
        }
        let mut batches: Vec<RetryController> = Vec::new();
        let mut i: usize = 0;
        while i < count
            invariant
                0 <= i <= count,
                batches.len() == i,
                forall|k: int|
                    0 <= k < i ==> (#[trigger] batches[k])@ == ControllerView::initial(policy@)
                        && batches[k]@.wf(),
            decreases count - i,
        {
            batches.push(RetryController::new(policy));
            i += 1;
        }
        let w = Writer { limit, batches, started: 0, in_flight: 0, finished: 0 };
        proof {
            let all = w@.batches;
            assert(all =~= WriterView::initial(count as nat, limit as nat, policy@).batches);
            lemma_count_bounds(all, |s: BatchState| s.is_in_flight());
            lemma_count_bounds(all, |s: BatchState| s.is_terminal());
        }
        Some(w)
    }

    /// The number of batches.
    pub fn len(&self) -> (r: usize)
        ensures
            r == self@.batches.len(),
    {
        self.batches.len()
    }

    /// The most batches that may be in flight at once.
    pub fn limit(&self) -> (r: usize)
        ensures
            r == self@.limit,
    {
        self.limit
    }

    /// How many batches are in flight.
    pub fn in_flight(&self) -> (r: usize)
        requires
            self.wf(),
        ensures
            r == self@.in_flight(),
            r <= self@.limit,
    {
        self.in_flight
    }

    /// Whether every batch has reached a terminal state.
    pub fn is_complete(&self) -> (r: bool)
        requires
            self.wf(),
        ensures
            r == self@.is_complete(),
    {
        proof {
            lemma_count_bounds(self@.batches, |s: BatchState| s.is_terminal());
        }
        self.finished == self.batches.len()
    }

    /// The state of batch `index`.
    pub fn state_of(&self, index: usize) -> (r: Option<BatchState>)
        ensures
            r == if index < self@.batches.len() {
                Some(self@.batches[index as int].state)
            } else {
                None
            },
    {
        if index < self.batches.len() {
            Some(self.batches[index].state())
        } else {
            None
        }
    }

    /// How batch `index` ended; `None` while it has not, or where there is
    /// no such batch.
    pub fn outcome_of(&self, index: usize) -> (r: Option<BatchOutcome>)
        ensures
            r == if index < self@.batches.len() {
                self@.batches[index as int].outcome()
            } else {
                None
            },
    {
        if index < self.batches.len() {
            self.batches[index].outcome()
        } else {
            None
        }
    }

    /// How many delays batch `index` has been through.
    pub fn retries_of(&self, index: usize) -> (r: Option<u64>)
        ensures
            r.is_some() == (index < self@.batches.len()),
            r matches Some(n) ==> n == self@.batches[index as int].retries,
    {
        if index < self.batches.len() {
            Some(self.batches[index].retries())
        } else {
            None
        }
    }

    /// Gives the next waiting batch a slot, if one is free, and says which
    /// batch it is: the caller is to attempt its write.
    pub fn start_next(&mut self) -> (r: Option<usize>)
        requires
            old(self).wf(),
        ensures
            final(self).wf(),
            final(self)@ == old(self)@.start_next(),
            r == if old(self)@.can_start() {
                Some(old(self)@.started as usize)
            } else {
                None
            },
    {
        if self.started < self.batches.len() && self.in_flight < self.limit {
            let index = self.started;
            let ghost before = self@;
            let mut batch = self.batches[index];
            batch.step(WriteEvent::SlotGranted);
            self.batches.set(index, batch);
            self.started = index + 1;
            self.in_flight = self.in_flight + 1;
            proof {
                assert(self@.batches =~= before.batches.update(index as int, batch@));
                lemma_start_next_preserves_wf(before);
                lemma_count_update(
                    before.batches,
                    |s: BatchState| s.is_terminal(),
                    index as int,
                    batch@,
                );
            }
            Some(index)
        } else {
            None
        }
    }

    /// Hands `event` to batch `index` and says what to do next with that
    /// batch; `None` where there is no such batch. A batch that reaches a
    /// terminal state gives up its slot.
    pub fn deliver(&mut self, index: usize, event: WriteEvent) -> (r: Option<Action>)
        requires
            old(self).wf(),
        ensures
            final(self).wf(),
            final(self)@ == old(self)@.deliver(index as int, event),
            r == if index < old(self)@.batches.len() {
                Some(final(self)@.batches[index as int].action())
            } else {
                None
            },
    {
        if index >= self.batches.len() {
            return None;
        }
        let mut batch = self.batches[index];
        if let WriteEvent::SlotGranted = event {
            return Some(batch.action());
        }
        let ghost before = self@;
        let was_in_flight = match batch.state() {
            BatchState::Attempting | BatchState::Backoff => true,
            _ => false,
        };
        let action = batch.step(event);
        let freed = was_in_flight && batch.is_terminal();
        proof {
            lemma_deliver_preserves_wf(before, index as int, event);
            lemma_count_update(
                before.batches,
                |s: BatchState| s.is_in_flight(),
                index as int,
                batch@,
            );
            lemma_count_update(
                before.batches,
                |s: BatchState| s.is_terminal(),
                index as int,
                batch@,
            );
            lemma_count_bounds(
                before.batches.update(index as int, batch@),
                |s: BatchState| s.is_terminal(),
            );
        }
        self.batches.set(index, batch);
        if freed {
            self.in_flight = self.in_flight - 1;
            self.finished = self.finished + 1;
        }
        proof {
            assert(self@.batches =~= before.batches.update(index as int, batch@));
        }
        Some(action)
    }
}

/// Plans the writes of a run: one plan over the posts of all files, joined
/// file after file. The batches hold `BATCH_SIZE` posts each but for the
/// last, with indexes that rise over the whole run; their schedule has
/// `MAX_CONCURRENT_BATCHES` slots and the default retry policy.
pub fn plan_writes(files: Vec<Vec<Tweet>>) -> (r: (Vec<Batch>, Writer))
    ensures
        r.0.len() == batch_count(joined(records_of(files@)).len(), BATCH_SIZE as nat),
        forall|i: int|
            0 <= i < r.0.len() ==> (#[trigger] r.0[i]).index == i && r.0[i].tweets@ == batch_items(
                joined(records_of(files@)),
                BATCH_SIZE as nat,
                i,
            ),
        forall|i: int| 0 <= i < r.0.len() ==> 0 < (#[trigger] r.0[i]).tweets.len() <= BATCH_SIZE,
        r.1.wf(),
        r.1@ == WriterView::initial(
            r.0.len() as nat,
            MAX_CONCURRENT_BATCHES as nat,
            (PolicyView { initial: 100, multiplier: 2, cap: 10_000, budget: 60_000 }),
        ),
{
    let all = concat_records(files);
    let batches = plan_batches(all, BATCH_SIZE);
    let writer = Writer::new(batches.len(), MAX_CONCURRENT_BATCHES, RetryPolicy::default());
    (batches, writer.unwrap())
}

} // verus!
