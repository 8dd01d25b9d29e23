//! The retry policy of one batch write: exponential backoff with a cap on
//! each delay and a budget for the whole sequence, as a state machine that
//! the caller drives with what happened.

use vstd::arithmetic::power::{lemma_pow_increases, lemma_pow_positive, pow};
use vstd::prelude::*;

verus! {

/// Whether a failed write is worth repeating.
#[derive(Clone, Copy, Debug, PartialEq, Eq, Structural)]
pub enum RetryDecision {
    /// A conflict with concurrent writers: the same write may succeed later.
    Transient,
    /// Anything else: repeating the write would fail again.
    Permanent,
}

/// Where one batch stands.
#[derive(Clone, Copy, Debug, PartialEq, Eq, Structural)]
pub enum BatchState {
    /// Planned, not yet given a slot.
    Pending,
    /// A write attempt is under way.
    Attempting,
    /// Waiting out a delay before the next attempt.
    Backoff,
    /// Written. Terminal.
    Committed,
    /// Refused for a reason that a retry cannot mend. Terminal.
    PermanentlyFailed,
    /// Given up: the next delay would overrun the time budget. Terminal.
    RetriesExhausted,
}

/// What happened to a batch since the last step.
#[derive(Clone, Copy, Debug, PartialEq, Eq, Structural)]
pub enum WriteEvent {
    /// The batch was given a slot and may start writing.
    SlotGranted,
    /// The attempt committed.
    Succeeded,
    /// The attempt failed; `elapsed_ms` is the time since the first attempt
    /// began, by the caller's clock.
    Failed { decision: RetryDecision, elapsed_ms: u64 },
    /// The delay that was asked for has passed.
    BackoffElapsed,
}

/// What the caller is to do next with a batch.
#[derive(Clone, Copy, Debug, PartialEq, Eq, Structural)]
pub enum Action {
    /// Wait for a slot.
    AwaitSlot,
    /// Run the write now.
    Attempt,
    /// Sleep this many milliseconds, then report `BackoffElapsed`.
    Sleep(u64),
    /// Nothing more: the batch has reached a terminal state.
    Finish,
}

/// How a batch ended.
#[derive(Clone, Copy, Debug, PartialEq, Eq, Structural)]
pub enum BatchOutcome {
    /// Written at the first attempt.
    Succeeded,
    /// Written after this many retries.
    SucceededAfterRetries { retries: u64 },
    /// Refused for good, after this many retries.
    PermanentlyFailed { retries: u64 },
    /// Given up for want of time, after this many retries.
    RetriesExhausted { retries: u64 },
}

impl BatchState {
    pub open spec fn is_terminal(self) -> bool {
        self == BatchState::Committed || self == BatchState::PermanentlyFailed || self
            == BatchState::RetriesExhausted
    }

    /// Holds a slot: started and not yet finished.
    pub open spec fn is_in_flight(self) -> bool {
        self == BatchState::Attempting || self == BatchState::Backoff
    }
}

/// The numbers of a backoff policy, in milliseconds.
pub ghost struct PolicyView {
    /// The first delay.
    pub initial: nat,
    /// The factor by which each delay exceeds the one before.
    pub multiplier: nat,
    /// The longest single delay.
    pub cap: nat,
    /// The longest time that attempts and delays together may take.
    pub budget: nat,
}

impl PolicyView {
    pub open spec fn valid(self) -> bool {
        1 <= self.initial <= self.cap && 1 <= self.multiplier
    }

    /// The delay before retry number `k`, counted from 0: the initial delay
    /// multiplied `k` times, held at the cap.
    pub open spec fn delay(self, k: nat) -> nat {
        vstd::math::min(self.cap as int, self.initial * pow(self.multiplier as int, k)) as nat
    }
}

/// A backoff policy with integer parameters.
#[derive(Clone, Copy, Debug, PartialEq, Eq)]
pub struct RetryPolicy {
    initial_interval_ms: u64,
    multiplier: u64,
    max_interval_ms: u64,
    max_elapsed_ms: u64,
}

impl View for RetryPolicy {
    type V = PolicyView;

    closed spec fn view(&self) -> PolicyView {
        PolicyView {
            initial: self.initial_interval_ms as nat,
            multiplier: self.multiplier as nat,
            cap: self.max_interval_ms as nat,
            budget: self.max_elapsed_ms as nat,
        }
    }
}

impl RetryPolicy {
    #[verifier::type_invariant]
    spec fn well_formed(self) -> bool {
        self@.valid()
    }

    /// A policy with these parameters, where they make one: the initial
    /// delay is at least a millisecond and no longer than the cap, and the
    /// multiplier is at least 1.
    pub fn new(
        initial_interval_ms: u64,
        multiplier: u64,
        max_interval_ms: u64,
        max_elapsed_ms: u64,
    ) -> (r: Option<RetryPolicy>)
        ensures
            r.is_some() == (1 <= initial_interval_ms <= max_interval_ms && 1 <= multiplier),
            r matches Some(p) ==> p@ == (PolicyView {
                initial: initial_interval_ms as nat,
                multiplier: multiplier as nat,
                cap: max_interval_ms as nat,
                budget: max_elapsed_ms as nat,
            }),
    {
        if 1 <= initial_interval_ms && initial_interval_ms <= max_interval_ms && 1 <= multiplier {
            Some(RetryPolicy { initial_interval_ms, multiplier, max_interval_ms, max_elapsed_ms })
        } else {
            None
        }
    }

    pub fn initial_interval_ms(&self) -> (r: u64)
        ensures
            r == self@.initial,
    {
        self.initial_interval_ms
    }

    pub fn multiplier(&self) -> (r: u64)
        ensures
            r == self@.multiplier,
    {
        self.multiplier
    }

    pub fn max_interval_ms(&self) -> (r: u64)
        ensures
            r == self@.cap,
    {
        self.max_interval_ms
    }

    pub fn max_elapsed_ms(&self) -> (r: u64)
        ensures
            r == self@.budget,
    {
        self.max_elapsed_ms
    }

    /// The delay that follows a delay of `current_ms`.
    fn grow(&self, current_ms: u64) -> (r: u64)
        requires
            current_ms <= self@.cap,
        ensures
            r == vstd::math::min(self@.cap as int, current_ms * self@.multiplier),
    {
        proof {
            use_type_invariant(self);
        }
        let cap = self.max_interval_ms;
        let m = self.multiplier;
        let q = cap / m;
        proof {
            vstd::arithmetic::div_mod::lemma_fundamental_div_mod(cap as int, m as int);
            vstd::arithmetic::div_mod::lemma_mod_bound(cap as int, m as int);
            assert(m * q <= cap < m * q + m);
        }
        if current_ms > q {
            proof {
                assert(current_ms * m >= (q + 1) * m) by (nonlinear_arith)
                    requires
                        current_ms >= q + 1,
                        m >= 1,
                ;
                assert((q + 1) * m == m * q + m) by (nonlinear_arith);
            }
            cap
        } else {
            proof {
                assert(current_ms * m <= q * m) by (nonlinear_arith)
                    requires
                        current_ms <= q,
                        m >= 1,
                ;
                assert(q * m == m * q) by (nonlinear_arith);
            }
            current_ms * m
        }
    }
}

impl Default for RetryPolicy {
    /// A tenth of a second at first, doubling up to ten seconds, for at
    /// most a minute.
    fn default() -> (r: RetryPolicy)
        ensures
            r@ == (PolicyView { initial: 100, multiplier: 2, cap: 10_000, budget: 60_000 }),
    {
        RetryPolicy {
            initial_interval_ms: 100,
            multiplier: 2,
            max_interval_ms: 10_000,
            max_elapsed_ms: 60_000,
        }
    }
}

/// Each delay is the one before it times the multiplier, held at the cap.
pub proof fn lemma_delay_step(p: PolicyView, k: nat)
    requires
        p.valid(),
    ensures
        p.delay(0) == p.initial,
        p.delay(k + 1) == vstd::math::min(p.cap as int, (p.delay(k) * p.multiplier) as int),
{
    let m = p.multiplier as int;
    reveal(pow);
    assert(pow(m, 0) == 1);
    assert(p.initial * 1 == p.initial);
    assert(pow(m, k + 1) == m * pow(m, k));
    lemma_pow_positive(m, k);
    let w = pow(m, k);
    let x = p.initial * w;
    assert(p.initial * (m * w) == x * m) by (nonlinear_arith)
        requires
            x == p.initial * w,
    ;
    if x <= p.cap {
    } else {
        assert(x * m >= x) by (nonlinear_arith)
            requires
                m >= 1,
                x >= 0,
        ;
        assert(p.cap * m >= p.cap) by (nonlinear_arith)
            requires
                m >= 1,
        ;
    }
}

/// The delays never shrink from one retry to the next, never fall below
/// the initial delay and never exceed the cap.
pub proof fn lemma_delay_monotone(p: PolicyView, i: nat, j: nat)
    requires
        p.valid(),
        i <= j,
    ensures
        p.initial <= p.delay(i) <= p.delay(j) <= p.cap,
{
    let m = p.multiplier as int;
    lemma_pow_increases(p.multiplier, i, j);
    lemma_pow_positive(m, i);
    lemma_pow_positive(m, j);
    let a = pow(m, i);
    let b = pow(m, j);
    assert(p.initial * a <= p.initial * b) by (nonlinear_arith)
        requires
            a <= b,
            p.initial >= 0,
    ;
    assert(p.initial * a >= p.initial) by (nonlinear_arith)
        requires
            a >= 1,
            p.initial >= 0,
    ;
}

/// The state of one batch's retry sequence.
pub ghost struct ControllerView {
    pub policy: PolicyView,
    pub state: BatchState,
    /// How many delays have been ordered so far.
    pub retries: nat,
    /// The time, in milliseconds since the first attempt began, at which
    /// the last ordered delay ends; 0 before the first delay.
    pub waited: nat,
}

impl ControllerView {
    /// What holds of every state that the machine reaches.
    pub open spec fn wf(self) -> bool {
        &&& self.policy.valid()
        &&& self.retries * self.policy.initial <= self.waited <= self.policy.budget
        &&& (self.retries == 0 ==> self.waited == 0)
        &&& (self.state == BatchState::Pending ==> self.retries == 0)
        &&& (self.state == BatchState::Backoff ==> self.retries >= 1)
    }

    /// The state of a batch that has just been planned.
    pub open spec fn initial(policy: PolicyView) -> ControllerView {
        ControllerView { policy, state: BatchState::Pending, retries: 0, waited: 0 }
    }

    /// The state after a transient failure reported `elapsed` milliseconds
    /// after the first attempt began. The time spent counts as at least the
    /// delays already ordered. The next delay is taken if it ends within the
    /// budget; otherwise the batch is given up.
    pub open spec fn after_transient_failure(self, elapsed: nat) -> ControllerView {
        let spent = vstd::math::max(elapsed as int, self.waited as int) as nat;
        let delay = self.policy.delay(self.retries);
        if spent + delay <= self.policy.budget {
            ControllerView {
                state: BatchState::Backoff,
                retries: self.retries + 1,
                waited: spent + delay,
                ..self
            }
        } else {
            ControllerView { state: BatchState::RetriesExhausted, ..self }
        }
    }

    /// The state after `event`. An event that the current state does not
    /// expect leaves it unchanged.
    pub open spec fn step(self, event: WriteEvent) -> ControllerView {
        match (self.state, event) {
            (BatchState::Pending, WriteEvent::SlotGranted) => ControllerView {
                state: BatchState::Attempting,
                ..self
            },
            (BatchState::Attempting, WriteEvent::Succeeded) => ControllerView {
                state: BatchState::Committed,
                ..self
            },
            (
                BatchState::Attempting,
                WriteEvent::Failed { decision: RetryDecision::Permanent, elapsed_ms },
            ) => ControllerView { state: BatchState::PermanentlyFailed, ..self },
            (
                BatchState::Attempting,
                WriteEvent::Failed { decision: RetryDecision::Transient, elapsed_ms },
            ) => self.after_transient_failure(elapsed_ms as nat),
            (BatchState::Backoff, WriteEvent::BackoffElapsed) => ControllerView {
                state: BatchState::Attempting,
                ..self
            },
            _ => self,
        }
    }

    /// What the state asks of the caller.
    pub open spec fn action(self) -> Action {
        match self.state {
            BatchState::Pending => Action::AwaitSlot,
            BatchState::Attempting => Action::Attempt,
            BatchState::Backoff => Action::Sleep(
                self.policy.delay((self.retries - 1) as nat) as u64,
            ),
            _ => Action::Finish,
        }
    }

    /// How the batch ended, once it has: a batch that was written counts as
    /// a success however many retries it took.
    pub open spec fn outcome(self) -> Option<BatchOutcome> {
        match self.state {
            BatchState::Committed => Some(
                if self.retries == 0 {
                    BatchOutcome::Succeeded
                } else {
                    BatchOutcome::SucceededAfterRetries { retries: self.retries as u64 }
                },
            ),
            BatchState::PermanentlyFailed => Some(
                BatchOutcome::PermanentlyFailed { retries: self.retries as u64 },
            ),
            BatchState::RetriesExhausted => Some(
                BatchOutcome::RetriesExhausted { retries: self.retries as u64 },
            ),
            _ => None,
        }
    }

    /// How many write attempts have been started.
    pub open spec fn attempts(self) -> nat {
        match self.state {
            BatchState::Pending => 0,
            BatchState::Backoff => self.retries,
            _ => self.retries + 1,
        }
    }
}

/// Every step leads from a well-formed state to a well-formed state.
pub proof fn lemma_step_preserves_wf(c: ControllerView, event: WriteEvent)
    requires
        c.wf(),
    ensures
        c.step(event).wf(),
{
    if c.state == BatchState::Attempting {
        if let WriteEvent::Failed { decision: RetryDecision::Transient, elapsed_ms } = event {
            lemma_transient_failure(c, elapsed_ms as nat);
        }
    }
}

/// A transient failure either gives the batch up or orders a delay that is
/// at least the initial one and ends within the budget.
pub proof fn lemma_transient_failure(c: ControllerView, elapsed: nat)
    requires
        c.wf(),
    ensures
        c.after_transient_failure(elapsed).wf(),
        c.after_transient_failure(elapsed).state == BatchState::Backoff ==> {
            &&& c.after_transient_failure(elapsed).retries == c.retries + 1
            &&& c.after_transient_failure(elapsed).waited >= c.waited + c.policy.initial
            &&& c.after_transient_failure(elapsed).waited <= c.policy.budget
        },
        c.after_transient_failure(elapsed).state != BatchState::Backoff ==> c.after_transient_failure(
            elapsed,
        ).state == BatchState::RetriesExhausted,
{
    lemma_delay_monotone(c.policy, 0, c.retries);
    lemma_delay_step(c.policy, 0);
    let r = c.retries;
    let i = c.policy.initial;
    assert((r + 1) * i == r * i + i) by (nonlinear_arith);
}

impl ControllerView {
    /// The state after a run of events, taken in order.
    pub open spec fn run(self, events: Seq<WriteEvent>) -> ControllerView
        decreases events.len(),
    {
        if events.len() == 0 {
            self
        } else {
            self.run(events.drop_last()).step(events.last())
        }
    }
}

/// Whatever happens to a batch, and however often its write fails, the
/// number of its retries stays within what the budget allows: no run of
/// events makes the machine retry forever.
pub proof fn lemma_run_bounded(policy: PolicyView, events: Seq<WriteEvent>)
    requires
        policy.valid(),
    ensures
        ControllerView::initial(policy).run(events).wf(),
        ControllerView::initial(policy).run(events).retries <= policy.budget / policy.initial,
        ControllerView::initial(policy).run(events).policy == policy,
    decreases events.len(),
{
    let start = ControllerView::initial(policy);
    assert(0 * policy.initial == 0) by (nonlinear_arith);
    if events.len() > 0 {
        lemma_run_bounded(policy, events.drop_last());
        lemma_step_preserves_wf(start.run(events.drop_last()), events.last());
    }
    lemma_retries_bounded(start.run(events));
}

/// The budget bounds the number of retries: each delay lasts at least the
/// initial delay, and all of them end within the budget.
pub proof fn lemma_retries_bounded(c: ControllerView)
    requires
        c.wf(),
    ensures
        c.retries * c.policy.initial <= c.policy.budget,
        c.retries <= c.policy.budget / c.policy.initial,
        c.attempts() <= c.policy.budget / c.policy.initial + 1,
{
    let r = c.retries as int;
    let i = c.policy.initial as int;
    let b = c.policy.budget as int;
    vstd::arithmetic::div_mod::lemma_fundamental_div_mod(b, i);
    vstd::arithmetic::div_mod::lemma_mod_bound(b, i);
    let q = b / i;
    if r > q {
        assert(r * i >= (q + 1) * i) by (nonlinear_arith)
            requires
                r >= q + 1,
                i >= 1,
        ;
        assert((q + 1) * i == i * q + i) by (nonlinear_arith);
    }
}

/// Once the caller's clock shows more than the budget, a transient failure
/// ends the sequence.
pub proof fn lemma_over_budget_exhausts(c: ControllerView, elapsed_ms: u64)
    requires
        c.wf(),
        c.state == BatchState::Attempting,
        elapsed_ms > c.policy.budget,
    ensures
        c.step(
            WriteEvent::Failed { decision: RetryDecision::Transient, elapsed_ms },
        ).state == BatchState::RetriesExhausted,
{
}

/// The retry state machine of one batch.
#[derive(Clone, Copy, Debug, PartialEq, Eq)]
pub struct RetryController {
    policy: RetryPolicy,
    state: BatchState,
    retries: u64,
    /// The delay that the next transient failure will order.
    interval_ms: u64,
    /// The delay that was ordered last.
    sleep_ms: u64,
    waited_ms: u64,
}

impl View for RetryController {
    type V = ControllerView;

    closed spec fn view(&self) -> ControllerView {
        ControllerView {
            policy: self.policy@,
            state: self.state,
            retries: self.retries as nat,
            waited: self.waited_ms as nat,
        }
    }
}

impl DeepView for RetryController {
    type V = ControllerView;

    open spec fn deep_view(&self) -> ControllerView {
        self@
    }
}

impl RetryController {
    #[verifier::type_invariant]
    spec fn well_formed(self) -> bool {
        &&& self@.wf()
        &&& self.interval_ms == self.policy@.delay(self.retries as nat)
        &&& self.retries >= 1 ==> self.sleep_ms == self.policy@.delay((self.retries - 1) as nat)
    }

    /// The controller of a batch that has just been planned.
    pub fn new(policy: RetryPolicy) -> (r: RetryController)
        ensures
            r@ == ControllerView::initial(policy@),
            r@.wf(),
    {
        proof {
            use_type_invariant(&policy);
            lemma_delay_step(policy@, 0);
        }
        RetryController {
            policy,
            state: BatchState::Pending,
            retries: 0,
            interval_ms: policy.initial_interval_ms(),
            sleep_ms: 0,
            waited_ms: 0,
        }
    }

    pub fn state(&self) -> (r: BatchState)
        ensures
            r == self@.state,
    {
        self.state
    }

    /// How many delays have been ordered.
    pub fn retries(&self) -> (r: u64)
        ensures
            r == self@.retries,
    {
        self.retries
    }

    pub fn is_terminal(&self) -> (r: bool)
        ensures
            r == self@.state.is_terminal(),
    {
        match self.state {
            BatchState::Committed | BatchState::PermanentlyFailed | BatchState::RetriesExhausted => true,
            _ => false,
        }
    }

    /// How the batch ended; `None` while it has not.
    pub fn outcome(&self) -> (r: Option<BatchOutcome>)
        ensures
            r == self@.outcome(),
    {
        match self.state {
            BatchState::Committed => {
                if self.retries == 0 {
                    Some(BatchOutcome::Succeeded)
                } else {
                    Some(BatchOutcome::SucceededAfterRetries { retries: self.retries })
                }
            },
            BatchState::PermanentlyFailed => Some(
                BatchOutcome::PermanentlyFailed { retries: self.retries },
            ),
            BatchState::RetriesExhausted => Some(
                BatchOutcome::RetriesExhausted { retries: self.retries },
            ),
            _ => None,
        }
    }

    /// What the state asks of the caller.
    pub fn action(&self) -> (r: Action)
        ensures
            r == self@.action(),
    {
        proof {
            use_type_invariant(self);
        }
        match self.state {
            BatchState::Pending => Action::AwaitSlot,
            BatchState::Attempting => Action::Attempt,
            BatchState::Backoff => Action::Sleep(self.sleep_ms),
            _ => Action::Finish,
        }
    }

    fn with_state(&self, state: BatchState) -> (r: RetryController)
        requires
            state != BatchState::Pending,
            state != BatchState::Backoff,
        ensures
            r@ == (ControllerView { state, ..self@ }),
    {
        proof {
            use_type_invariant(self);
        }
        RetryController {
            policy: self.policy,
            state,
            retries: self.retries,
            interval_ms: self.interval_ms,
            sleep_ms: self.sleep_ms,
            waited_ms: self.waited_ms,
        }
    }

    fn after_transient_failure(&self, elapsed_ms: u64) -> (r: RetryController)
        ensures
            r@ == self@.after_transient_failure(elapsed_ms as nat),
    {
        proof {
            use_type_invariant(self);
            use_type_invariant(&self.policy);
            lemma_transient_failure(self@, elapsed_ms as nat);
            lemma_delay_monotone(self.policy@, 0, self.retries as nat);
            lemma_delay_step(self.policy@, self.retries as nat);
        }
        let spent = if elapsed_ms > self.waited_ms {
            elapsed_ms
        } else {
            self.waited_ms
        };
        let budget = self.policy.max_elapsed_ms();
        let delay = self.interval_ms;
        if spent <= budget && delay <= budget - spent {
            proof {
                let r = self.retries as int;
                let i = self.policy@.initial as int;
                assert((r + 1) * i == r * i + i) by (nonlinear_arith);
                assert(r + 1 <= (r + 1) * i) by (nonlinear_arith)
                    requires
                        i >= 1,
                        r >= 0,
                ;
            }
            RetryController {
                policy: self.policy,
                state: BatchState::Backoff,
                retries: self.retries + 1,
                interval_ms: self.policy.grow(delay),
                sleep_ms: delay,
                waited_ms: spent + delay,
            }
        } else {
            self.with_state(BatchState::RetriesExhausted)
        }
    }

    /// Takes in what happened and says what to do next.
    pub fn step(&mut self, event: WriteEvent) -> (action: Action)
        ensures
            final(self)@ == old(self)@.step(event),
            final(self)@.wf(),
            action == final(self)@.action(),
    {
        proof {
            use_type_invariant(&*self);
            lemma_step_preserves_wf(self@, event);
        }
        let next = match (self.state, event) {
            (BatchState::Pending, WriteEvent::SlotGranted) => self.with_state(
                BatchState::Attempting,
            ),
            (BatchState::Attempting, WriteEvent::Succeeded) => self.with_state(
                BatchState::Committed,
            ),
            (
                BatchState::Attempting,
                WriteEvent::Failed { decision: RetryDecision::Permanent, elapsed_ms },
            ) => self.with_state(BatchState::PermanentlyFailed),
            (
                BatchState::Attempting,
                WriteEvent::Failed { decision: RetryDecision::Transient, elapsed_ms },
            ) => self.after_transient_failure(elapsed_ms),
            (BatchState::Backoff, WriteEvent::BackoffElapsed) => self.with_state(
                BatchState::Attempting,
            ),
            _ => *self,
        };
        *self = next;
        self.action()
    }
}

} // verus!
