//! A lower-level contract for actors whose state lives behind an opaque
//! handle (an embedded interpreter, a wasm instance, any C-library state),
//! lifted into an actor by one adapter ([`Foreign`]).
//!
//! The vocabulary is deliberately opaque: bytes, port names, parks. A
//! consumer implements [`ForeignActor`] for its handle; the adapter owns
//! pacing (slice budget, park bookkeeping) and the backpressure policy.

use crate::ipc::PlatformSendSync;
use crate::proto::ControlSignal;
use std::collections::VecDeque;
use std::time::{Duration, Instant};
use vstd::prelude::*;

verus! {

/// The outcome of driving a foreign actor one step.
pub enum Drove {
    /// Made progress and has more work; the adapter keeps driving until the
    /// slice budget is spent.
    Progressed,
    /// No more progress can be made right now; see [`WaitHint`].
    Parked(WaitHint),
    /// The actor ran to completion.
    Done,
    /// The actor failed irrecoverably.
    Failed(anyhow::Error),
}

/// How long a parked actor expects to wait before it is worth driving again.
#[derive(Debug, Clone, Copy, PartialEq, Eq)]
pub struct WaitHint {
    /// `None` = park with no deadline: only new input can unpark the actor.
    pub timeout: Option<Duration>,
}

/// An opaque message addressed to a named port on a foreign actor.
#[derive(Debug, Clone, PartialEq, Eq)]
pub struct PortMsg {
    pub port: String,
    pub bytes: Vec<u8>,
}

/// The result of delivering bytes to a foreign actor's port.
#[derive(Debug, Clone, Copy, PartialEq, Eq, Structural)]
pub enum Delivery {
    Accepted,
    /// The port cannot take more right now: backpressure, kept visible.
    Full,
    /// The port does not exist or will never take this message.
    Refused,
}

/// Whatever the foreign handle can measure about itself. All fields are
/// optional: report what you can, omit what you can't.
#[derive(Debug, Clone, Copy, PartialEq, Eq, Structural)]
pub struct ForeignMetrics {
    /// Execution budget spent so far, in handle-defined units.
    pub budget_spent: Option<u64>,
    /// Execution budget limit, in the same units as `budget_spent`.
    pub budget_limit: Option<u64>,
    /// Bytes of state currently held by the handle.
    pub bytes_held: Option<u64>,
}

impl Default for ForeignMetrics {
    fn default() -> (r: Self)
        ensures
            r.budget_spent is None,
            r.budget_limit is None,
            r.bytes_held is None,
    {
        ForeignMetrics { budget_spent: None, budget_limit: None, bytes_held: None }
    }
}

/// The saturation of a budget as a fraction `(spent, limit)`: present when
/// both fields are reported and the limit is non-zero.
pub open spec fn saturation_fraction(m: ForeignMetrics) -> Option<(u64, u64)> {
    match (m.budget_spent, m.budget_limit) {
        (Some(spent), Some(limit)) => if limit > 0 {
            Some((spent, limit))
        } else {
            None
        },
        _ => None,
    }
}

impl ForeignMetrics {
    /// The saturation ratio derived from the budget fields, as the fraction
    /// `spent / limit`, if both are present and the limit is non-zero.
    pub fn saturation_ratio(&self) -> (r: Option<(u64, u64)>)
        ensures
            r == saturation_fraction(*self),
    {
        match (self.budget_spent, self.budget_limit) {
            (Some(spent), Some(limit)) => if limit > 0 {
                Some((spent, limit))
            } else {
                None
            },
            _ => None,
        }
    }
}

/// An actor whose state lives behind an opaque handle. Implement this for
/// the handle type; wrap it in [`Foreign`] to get an actor.
///
/// All methods are synchronous: the handle is driven in short slices from
/// the adapter's tick, never awaited into.
pub trait ForeignActor: PlatformSendSync {
    /// Advance one step. Cheap enough to call in a loop; the adapter
    /// enforces the slice budget.
    fn drive(&mut self) -> Result<Drove, anyhow::Error>;

    /// Offer bytes to a named port. Must not block; report
    /// [`Delivery::Full`] instead.
    fn deliver(&mut self, port: &str, bytes: &[u8]) -> Delivery;

    /// Hand over any produced output, port by port, in the order produced.
    fn drain(&mut self) -> Vec<PortMsg>;

    /// Measured (not self-reported-aspirational) resource metrics.
    fn metrics(&self) -> ForeignMetrics;

    /// Serialize state to bytes if the handle is at a stop point, else `None`.
    fn passivate(&mut self) -> Option<Vec<u8>>;
}

/// What the adapter does when a port reports [`Delivery::Full`].
/// The policy lives here, once, instead of in every consumer.
#[derive(Debug, Clone, Copy, PartialEq, Eq, Structural)]
pub enum BackpressurePolicy {
    /// Fail the delivery immediately (the actor errors and supervision
    /// takes over).
    Refuse,
    /// Buffer up to this many messages and retry them at the next tick;
    /// overflowing the buffer is an error.
    Buffer(usize),
}

/// Whether the adapter is holding off driving the handle.
pub enum Park {
    /// Running normally.
    No,
    /// Parked until roughly this instant.
    Until(Instant),
    /// Parked with no deadline; only new input unparks.
    Indefinite,
}

/// Why the adapter's tick or delivery failed.
#[derive(Debug)]
pub enum ForeignError {
    /// The port refused the message.
    Refused { port: String },
    /// The port was full and the backpressure policy is `Refuse`.
    FullRefused { port: String },
    /// The port was full and the retry buffer already held `cap` messages.
    BufferOverflow { port: String, cap: usize },
    /// The handle failed while being driven.
    Failed(anyhow::Error),
}

/// What one drive of the handle means for the current slice.
#[derive(Debug)]
pub enum DriveStep {
    /// The handle progressed: keep driving while the budget lasts.
    KeepDriving,
    /// The handle parked, and the park is recorded.
    Parked,
    /// The handle ran to completion.
    Finished,
    /// The handle failed.
    Failed(ForeignError),
}

/// What redelivering the buffer's front message means for the retry.
#[derive(Debug)]
pub enum FlushStep {
    /// Accepted: go on with the next buffered message.
    Continue,
    /// The port is still full: stop retrying for this tick.
    Stop,
    /// The port refused: the retry fails.
    Fail(ForeignError),
}

/// Whether a park still holds, given whether its deadline has passed.
pub open spec fn park_holds(park: Park, deadline_passed: bool) -> bool {
    match park {
        Park::No => false,
        Park::Indefinite => true,
        Park::Until(_) => !deadline_passed,
    }
}

/// The park after the check: a deadline park whose deadline has passed is
/// cleared; any other park stays as it is.
pub open spec fn park_after(park: Park, deadline_passed: bool) -> Park {
    match park {
        Park::Until(_) => if deadline_passed {
            Park::No
        } else {
            park
        },
        _ => park,
    }
}

/// How a tick ends after one drive: `None` while the handle progressed and
/// the slice budget is not spent (drive again); a park ends the tick with
/// `Ok(true)`, completion with `Ok(false)`, a failure with its error, and
/// progress with the budget spent with `Ok(true)`.
pub open spec fn verdict(step: DriveStep, budget_spent: bool) -> Option<Result<bool, ForeignError>> {
    match step {
        DriveStep::KeepDriving => if budget_spent {
            Some(Ok(true))
        } else {
            None
        },
        DriveStep::Parked => Some(Ok(true)),
        DriveStep::Finished => Some(Ok(false)),
        DriveStep::Failed(e) => Some(Err(e)),
    }
}

/// How a tick ends after one drive: see [`verdict`].
pub fn tick_verdict(step: DriveStep, budget_spent: bool) -> (r: Option<Result<bool, ForeignError>>)
    ensures
        r == verdict(step, budget_spent),
{
    match step {
        DriveStep::KeepDriving => {
            if budget_spent {
                Some(Ok(true))
            } else {
                None
            }
        },
        DriveStep::Parked => Some(Ok(true)),
        DriveStep::Finished => Some(Ok(false)),
        DriveStep::Failed(e) => Some(Err(e)),
    }
}

/// What one delivery outcome does to the retry buffer and to the result,
/// given the policy: `Full` is buffered while the buffer has room, and
/// every other refusal surfaces as an error naming the port.
pub open spec fn delivery_post(
    pending: Seq<PortMsg>,
    policy: BackpressurePolicy,
    data: PortMsg,
    outcome: Delivery,
    new_pending: Seq<PortMsg>,
    r: Result<(), ForeignError>,
) -> bool {
    match outcome {
        Delivery::Accepted => new_pending == pending && r is Ok,
        Delivery::Refused => new_pending == pending && r == Err::<(), ForeignError>(
            ForeignError::Refused { port: data.port },
        ),
        Delivery::Full => match policy {
            BackpressurePolicy::Refuse => new_pending == pending && r == Err::<(), ForeignError>(
                ForeignError::FullRefused { port: data.port },
            ),
            BackpressurePolicy::Buffer(cap) => if pending.len() >= cap {
                new_pending == pending && r == Err::<(), ForeignError>(
                    ForeignError::BufferOverflow { port: data.port, cap },
                )
            } else {
                new_pending == pending.push(data) && r is Ok
            },
        },
    }
}

/// A retry of the buffer that stopped after `k` accepted messages: either
/// the next one was `Full` (it stays at the front) or there was none left,
/// or the next one was refused (it is dropped and the port reported).
/// Any accepted message clears the park.
pub open spec fn flush_post(
    pending: Seq<PortMsg>,
    k: int,
    new_pending: Seq<PortMsg>,
    park: Park,
    new_park: Park,
    r: Result<(), ForeignError>,
) -> bool {
    &&& 0 <= k <= pending.len()
    &&& (if k > 0 {
        new_park is No
    } else {
        new_park == park
    })
    &&& match r {
        Ok(()) => new_pending == pending.skip(k),
        Err(e) => {
            &&& k < pending.len()
            &&& e == ForeignError::Refused { port: pending[k].port }
            &&& new_pending == pending.skip(k + 1)
        },
    }
}

/// How a retry of the buffer `pending` went, by what was offered to the
/// handle and how each port answered (`offers`, in order): the buffered
/// messages are offered oldest first, each at most once, and the retry
/// goes on while their ports accept them. It ends when the buffer is empty
/// (`Ok`, nothing left), at a `Full` answer (`Ok`, that message stays at
/// the front), or at a `Refused` answer (an error naming that message's
/// port; the message is dropped).
pub open spec fn retry_answered(
    pending: Seq<PortMsg>,
    offers: Seq<(PortMsg, Delivery)>,
    new_pending: Seq<PortMsg>,
    r: Result<(), ForeignError>,
) -> bool {
    &&& offers.len() <= pending.len()
    &&& forall|i: int| #![trigger offers[i]] 0 <= i < offers.len() ==> offers[i].0 == pending[i]
    &&& forall|i: int| #![trigger offers[i]] 0 <= i < offers.len() - 1 ==> offers[i].1 == Delivery::Accepted
    &&& match r {
        Ok(()) => if offers.len() > 0 && offers.last().1 == Delivery::Full {
            new_pending == pending.skip(offers.len() - 1)
        } else {
            &&& offers.len() == pending.len()
            &&& offers.len() > 0 ==> offers.last().1 == Delivery::Accepted
            &&& new_pending.len() == 0
        },
        Err(e) => {
            &&& offers.len() > 0
            &&& offers.last().1 == Delivery::Refused
            &&& e == ForeignError::Refused { port: offers.last().0.port }
            &&& new_pending == pending.skip(offers.len() as int)
        },
    }
}

/// A retry gives `Ok` only where every message that left the buffer was
/// accepted by its port: the messages gone are the oldest ones, each was
/// offered once, in order, and answered `Accepted`.
pub proof fn lemma_retry_ok_only_if_accepted(
    pending: Seq<PortMsg>,
    offers: Seq<(PortMsg, Delivery)>,
    new_pending: Seq<PortMsg>,
)
    requires
        retry_answered(pending, offers, new_pending, Ok(())),
    ensures
        new_pending.len() <= pending.len(),
        new_pending == pending.skip(pending.len() - new_pending.len()),
        forall|i: int|
            0 <= i < pending.len() - new_pending.len() ==> #[trigger] offers[i] == (
            pending[i],
            Delivery::Accepted,
        ),
        forall|i: int| 0 <= i < offers.len() ==> #[trigger] offers[i].1 != Delivery::Refused,
{
    if offers.len() > 0 && offers.last().1 == Delivery::Full {
        assert(offers[offers.len() - 1].1 == Delivery::Full);
    } else {
        assert(new_pending =~= pending.skip(pending.len() as int));
        if offers.len() > 0 {
            assert(offers[offers.len() - 1].1 == Delivery::Accepted);
        }
    }
}

/// A message that its port refuses on retry fails the retry with `Refused`
/// naming that port; the refused message is the last one offered and is
/// dropped, and the messages behind it stay buffered in order.
pub proof fn lemma_retry_refusal_fails(
    pending: Seq<PortMsg>,
    offers: Seq<(PortMsg, Delivery)>,
    new_pending: Seq<PortMsg>,
    r: Result<(), ForeignError>,
    i: int,
)
    requires
        retry_answered(pending, offers, new_pending, r),
        0 <= i < offers.len(),
        offers[i].1 == Delivery::Refused,
    ensures
        r == Err::<(), ForeignError>(ForeignError::Refused { port: pending[i].port }),
        i == offers.len() - 1,
        new_pending == pending.skip(i + 1),
{
    if i < offers.len() - 1 {
        assert(offers[i].1 == Delivery::Accepted);
    }
    if r is Ok {
        if offers.len() > 0 && offers.last().1 == Delivery::Full {
        } else {
            assert(offers[offers.len() - 1].1 == Delivery::Accepted);
        }
    }
}

/// A message that meets a full port on retry ends the retry without error
/// and stays at the front of the buffer, with everything behind it.
pub proof fn lemma_retry_full_keeps_front(
    pending: Seq<PortMsg>,
    offers: Seq<(PortMsg, Delivery)>,
    new_pending: Seq<PortMsg>,
    r: Result<(), ForeignError>,
    i: int,
)
    requires
        retry_answered(pending, offers, new_pending, r),
        0 <= i < offers.len(),
        offers[i].1 == Delivery::Full,
    ensures
        r is Ok,
        i == offers.len() - 1,
        new_pending == pending.skip(i),
        new_pending.len() > 0 && new_pending[0] == pending[i],
{
    if i < offers.len() - 1 {
        assert(offers[i].1 == Delivery::Accepted);
    }
    if r is Ok {
        if !(offers.len() > 0 && offers.last().1 == Delivery::Full) {
            assert(offers[offers.len() - 1].1 == Delivery::Accepted);
        }
    }
}

/// `new` is what remains of `old` after some messages left from its front.
pub open spec fn retains_suffix(old: Seq<PortMsg>, new: Seq<PortMsg>) -> bool {
    exists|k: int| 0 <= k <= old.len() && #[trigger] old.skip(k) == new
}

/// The name of `Duration::from_millis(ms)`.
pub uninterp spec fn duration_from_millis(ms: u64) -> Duration;

/// Calls `std::time::Duration::from_millis`; the result is the duration of
/// `ms` milliseconds, which `duration_from_millis` names.
#[verifier::external_body]
fn millis(ms: u64) -> (d: Duration)
    ensures
        d == duration_from_millis(ms),
{
    Duration::from_millis(ms)
}

/// Calls `std::time::Instant::now`. Nothing is stated of the reading: it
/// depends on the clock.
#[verifier::external_body]
fn clock_now() -> Instant {
    Instant::now()
}

/// Calls `std::time::Instant::checked_add`: the instant `wait` after `now`,
/// or `None` where the clock cannot represent it. Instants have no model
/// here, so nothing is stated of the instant returned.
#[verifier::external_body]
fn deadline_after(now: Instant, wait: Duration) -> Option<Instant> {
    now.checked_add(wait)
}

/// Calls `PartialOrd::ge` on two instants. Instants have no model here, so
/// the comparison's result is left unstated.
#[verifier::external_body]
fn instant_at_or_after(a: &Instant, b: &Instant) -> bool {
    a >= b
}

/// Calls `std::time::Instant::elapsed`. Nothing is stated of the duration:
/// it depends on the clock.
#[verifier::external_body]
fn elapsed_since(start: &Instant) -> Duration {
    start.elapsed()
}

/// Calls `PartialOrd::ge` on two durations. Durations have no model here,
/// so the comparison's result is left unstated.
#[verifier::external_body]
fn duration_at_least(a: &Duration, b: &Duration) -> bool {
    a >= b
}

/// Adapter lifting any [`ForeignActor`] into an actor with [`PortMsg`] data
/// in and out. Owns pacing (slice budget, park bookkeeping) and the
/// backpressure policy.
pub struct Foreign<T: ForeignActor> {
    inner: T,
    tick_interval: Duration,
    slice_budget: Duration,
    backpressure: BackpressurePolicy,
    pending: VecDeque<PortMsg>,
    park: Park,
    outbox: Vec<PortMsg>,
    offers: Ghost<Seq<(PortMsg, Delivery)>>,
    handed: Ghost<Seq<PortMsg>>,
}

impl<T: ForeignActor> Foreign<T> {
    /// The wrapped handle.
    pub closed spec fn inner_view(&self) -> T {
        self.inner
    }

    /// The base tick interval.
    pub closed spec fn tick_interval_view(&self) -> Duration {
        self.tick_interval
    }

    /// The wall-clock budget for driving the handle per tick.
    pub closed spec fn slice_budget_view(&self) -> Duration {
        self.slice_budget
    }

    /// The backpressure policy.
    pub closed spec fn policy(&self) -> BackpressurePolicy {
        self.backpressure
    }

    /// Messages that met a full port, oldest first, waiting to be retried.
    pub closed spec fn pending_view(&self) -> Seq<PortMsg> {
        self.pending@
    }

    /// The park in effect.
    pub closed spec fn park_view(&self) -> Park {
        self.park
    }

    /// Output drained from the handle and not yet taken, oldest first.
    pub closed spec fn outbox_view(&self) -> Seq<PortMsg> {
        self.outbox@
    }

    /// Every message this adapter has offered to the handle (new input and
    /// retries alike), each with the handle's answer, oldest first.
    pub closed spec fn offers_view(&self) -> Seq<(PortMsg, Delivery)> {
        self.offers@
    }

    /// Every message the handle has handed over to this adapter when its
    /// output was drained, in the order handed over.
    pub closed spec fn handed_view(&self) -> Seq<PortMsg> {
        self.handed@
    }

    /// No message was offered to the handle and none was drained from it.
    pub open spec fn same_logs(&self, other: &Self) -> bool {
        &&& self.offers_view() == other.offers_view()
        &&& self.handed_view() == other.handed_view()
    }

    /// Pacing and policy, which only the builders change.
    pub open spec fn same_settings(&self, other: &Self) -> bool {
        &&& self.tick_interval_view() == other.tick_interval_view()
        &&& self.slice_budget_view() == other.slice_budget_view()
        &&& self.policy() == other.policy()
    }

    /// Every part of the adapter that its contracts speak of is as in `other`.
    pub open spec fn unchanged_from(&self, other: &Self) -> bool {
        &&& self.inner_view() == other.inner_view()
        &&& self.same_settings(other)
        &&& self.pending_view() == other.pending_view()
        &&& self.park_view() == other.park_view()
        &&& self.outbox_view() == other.outbox_view()
        &&& self.same_logs(other)
    }

    /// Wrap a handle: 10 ms ticks, a 5 ms slice budget, a retry buffer of 64
    /// messages, nothing buffered, not parked.
    pub fn new(inner: T) -> (r: Self)
        ensures
            r.inner_view() == inner,
            r.tick_interval_view() == duration_from_millis(10),
            r.slice_budget_view() == duration_from_millis(5),
            r.policy() == BackpressurePolicy::Buffer(64),
            r.pending_view() == Seq::<PortMsg>::empty(),
            r.park_view() is No,
            r.outbox_view() == Seq::<PortMsg>::empty(),
            r.offers_view() == Seq::<(PortMsg, Delivery)>::empty(),
            r.handed_view() == Seq::<PortMsg>::empty(),
    {
        Foreign {
            inner,
            tick_interval: millis(10),
            slice_budget: millis(5),
            backpressure: BackpressurePolicy::Buffer(64),
            pending: VecDeque::new(),
            park: Park::No,
            outbox: Vec::new(),
            offers: Ghost(Seq::empty()),
            handed: Ghost(Seq::empty()),
        }
    }

    /// Base tick interval for the run loop (parks make individual ticks
    /// cheap no-ops rather than stretching the interval).
    pub fn with_tick_interval(self, interval: Duration) -> (r: Self)
        ensures
            r.tick_interval_view() == interval,
            r.inner_view() == self.inner_view(),
            r.slice_budget_view() == self.slice_budget_view(),
            r.policy() == self.policy(),
            r.pending_view() == self.pending_view(),
            r.park_view() == self.park_view(),
            r.outbox_view() == self.outbox_view(),
            r.same_logs(&self),
    {
        let mut s = self;
        s.tick_interval = interval;
        s
    }

    /// Maximum wall-clock time to spend driving the handle per tick.
    pub fn with_slice_budget(self, budget: Duration) -> (r: Self)
        ensures
            r.slice_budget_view() == budget,
            r.inner_view() == self.inner_view(),
            r.tick_interval_view() == self.tick_interval_view(),
            r.policy() == self.policy(),
            r.pending_view() == self.pending_view(),
            r.park_view() == self.park_view(),
            r.outbox_view() == self.outbox_view(),
            r.same_logs(&self),
    {
        let mut s = self;
        s.slice_budget = budget;
        s
    }

    /// The policy applied when a port reports `Full`.
    pub fn with_backpressure(self, policy: BackpressurePolicy) -> (r: Self)
        ensures
            r.policy() == policy,
            r.inner_view() == self.inner_view(),
            r.tick_interval_view() == self.tick_interval_view(),
            r.slice_budget_view() == self.slice_budget_view(),
            r.pending_view() == self.pending_view(),
            r.park_view() == self.park_view(),
            r.outbox_view() == self.outbox_view(),
            r.same_logs(&self),
    {
        let mut s = self;
        s.backpressure = policy;
        s
    }

    /// The wrapped handle.
    pub fn inner(&self) -> (r: &T)
        ensures
            *r == self.inner_view(),
    {
        &self.inner
    }

    /// The wrapped handle, mutably.
    pub fn inner_mut(&mut self) -> (r: &mut T)
        ensures
            *r == old(self).inner_view(),
            final(self).inner_view() == *final(r),
            final(self).same_settings(old(self)),
            final(self).same_logs(old(self)),
            final(self).pending_view() == old(self).pending_view(),
            final(self).park_view() == old(self).park_view(),
            final(self).outbox_view() == old(self).outbox_view(),
    {
        &mut self.inner
    }

    /// What the adapter does with the outcome of offering `data` to its
    /// port: `Full` is buffered under `Buffer(cap)` while fewer than `cap`
    /// messages wait, and every other refusal surfaces as an error.
    pub fn absorb_delivery(&mut self, data: PortMsg, outcome: Delivery) -> (r: Result<(), ForeignError>)
        ensures
            delivery_post(old(self).pending_view(), old(self).policy(), data, outcome, final(self).pending_view(), r),
            final(self).inner_view() == old(self).inner_view(),
            final(self).same_settings(old(self)),
            final(self).same_logs(old(self)),
            final(self).park_view() == old(self).park_view(),
            final(self).outbox_view() == old(self).outbox_view(),
    {
        match outcome {
            Delivery::Accepted => Ok(()),
            Delivery::Full => match self.backpressure {
                BackpressurePolicy::Refuse => Err(ForeignError::FullRefused { port: data.port }),
                BackpressurePolicy::Buffer(cap) => {
                    if self.pending.len() >= cap {
                        Err(ForeignError::BufferOverflow { port: data.port, cap })
                    } else {
                        self.pending.push_back(data);
                        Ok(())
                    }
                },
            },
            Delivery::Refused => Err(ForeignError::Refused { port: data.port }),
        }
    }

    /// New input: clear the park (it may unblock whatever the handle was
    /// waiting on), offer the message to its port, and apply the
    /// backpressure policy to the outcome.
    pub fn on_data(&mut self, data: PortMsg) -> (r: Result<(), ForeignError>)
        ensures
            exists|d: Delivery|
                delivery_post(old(self).pending_view(), old(self).policy(), data, d, final(self).pending_view(), r),
            final(self).park_view() is No,
            final(self).same_settings(old(self)),
            final(self).outbox_view() == old(self).outbox_view(),
            final(self).handed_view() == old(self).handed_view(),
            final(self).offers_view().len() == old(self).offers_view().len() + 1,
            final(self).offers_view().drop_last() == old(self).offers_view(),
            final(self).offers_view().last().0 == data,
            delivery_post(
                old(self).pending_view(),
                old(self).policy(),
                data,
                final(self).offers_view().last().1,
                final(self).pending_view(),
                r,
            ),
    {
        self.park = Park::No;
        let outcome = self.inner.deliver(data.port.as_str(), data.bytes.as_slice());
        self.offers = Ghost(self.offers@.push((data, outcome)));
        let r = self.absorb_delivery(data, outcome);
        assert(delivery_post(old(self).pending_view(), old(self).policy(), data, outcome, self.pending_view(), r));
        r
    }

    /// Retry buffered deliveries, oldest first. A message that still meets a
    /// full port stays buffered, at the front, for the next tick; a refusal
    /// is an error. Anything accepted counts as new input, which clears the
    /// park.
    pub fn flush_pending(&mut self) -> (r: Result<(), ForeignError>)
        ensures
            exists|k: int|
                #[trigger] flush_post(
                    old(self).pending_view(),
                    k,
                    final(self).pending_view(),
                    old(self).park_view(),
                    final(self).park_view(),
                    r,
                ),
            final(self).same_settings(old(self)),
            final(self).outbox_view() == old(self).outbox_view(),
            old(self).pending_view().len() == 0 ==> final(self).unchanged_from(old(self)) && r is Ok,
            final(self).handed_view() == old(self).handed_view(),
            old(self).offers_view().is_prefix_of(final(self).offers_view()),
            retry_answered(
                old(self).pending_view(),
                final(self).offers_view().skip(old(self).offers_view().len() as int),
                final(self).pending_view(),
                r,
            ),
    {
        let ghost start = self.pending@;
        let ghost n0 = self.offers@.len() as int;
        let ghost mut k: int = 0;
        assert(self.offers@.subrange(0, n0) =~= old(self).offers@);
        loop
            invariant
                0 <= k <= start.len(),
                self.pending@ == start.skip(k),
                if k > 0 {
                    self.park is No
                } else {
                    self.unchanged_from(old(self))
                },
                self.same_settings(old(self)),
                self.outbox@ == old(self).outbox@,
                start == old(self).pending@,
                n0 == old(self).offers@.len(),
                self.handed@ == old(self).handed@,
                self.offers@.len() == n0 + k,
                self.offers@.subrange(0, n0) == old(self).offers@,
                forall|i: int|
                    0 <= i < k ==> #[trigger] self.offers@.skip(n0)[i] == (start[i], Delivery::Accepted),
            decreases self.pending@.len(),
        {
            match self.pending.pop_front() {
                None => {
                    let r = Ok(());
                    assert(flush_post(old(self).pending_view(), k, self.pending_view(), old(self).park_view(), self.park_view(), r));
                    assert(old(self).offers@ =~= self.offers@.subrange(0, n0));
                    assert(start.skip(k).len() == 0);
                    proof {
                        if k > 0 {
                            assert(self.offers@.skip(n0)[k - 1] == (start[k - 1], Delivery::Accepted));
                        }
                    }
                    assert(retry_answered(start, self.offers@.skip(n0), self.pending@, r));
                    return r;
                },
                Some(msg) => {
                    assert(msg == start[k]);
                    let outcome = self.inner.deliver(msg.port.as_str(), msg.bytes.as_slice());
                    let ghost before = self.offers@;
                    self.offers = Ghost(self.offers@.push((msg, outcome)));
                    proof {
                        assert(self.offers@.subrange(0, n0) =~= before.subrange(0, n0));
                        assert(self.offers@.skip(n0) =~= before.skip(n0).push((msg, outcome)));
                        assert(forall|i: int|
                            0 <= i < k ==> #[trigger] self.offers@.skip(n0)[i] == before.skip(n0)[i]);
                    }
                    match self.absorb_redelivery(msg, outcome) {
                        FlushStep::Continue => {
                            proof {
                                assert(start.skip(k).subrange(1, start.skip(k).len() as int) =~= start.skip(k + 1));
                                k = k + 1;
                            }
                        },
                        FlushStep::Stop => {
                            assert(self.pending@ =~= start.skip(k));
                            let r = Ok(());
                            assert(flush_post(old(self).pending_view(), k, self.pending_view(), old(self).park_view(), self.park_view(), r));
                            assert(old(self).offers@ =~= self.offers@.subrange(0, n0));
                            assert(retry_answered(start, self.offers@.skip(n0), self.pending@, r));
                            return r;
                        },
                        FlushStep::Fail(e) => {
                            assert(self.pending@ =~= start.skip(k + 1));
                            let r = Err(e);
                            assert(flush_post(old(self).pending_view(), k, self.pending_view(), old(self).park_view(), self.park_view(), r));
                            assert(old(self).offers@ =~= self.offers@.subrange(0, n0));
                            assert(retry_answered(start, self.offers@.skip(n0), self.pending@, r));
                            return r;
                        },
                    }
                },
            }
        }
    }

    /// What the handle's answer to redelivering the buffer's front message
    /// does: accepted, it has left the buffer and counts as new input, which
    /// clears the park; full, it goes back to the front and the retry stops
    /// for this tick; refused, it is dropped and its port reported.
    pub fn absorb_redelivery(&mut self, msg: PortMsg, outcome: Delivery) -> (step: FlushStep)
        ensures
            final(self).inner_view() == old(self).inner_view(),
            final(self).same_settings(old(self)),
            final(self).same_logs(old(self)),
            final(self).outbox_view() == old(self).outbox_view(),
            match outcome {
                Delivery::Accepted => {
                    &&& step is Continue
                    &&& final(self).park_view() is No
                    &&& final(self).pending_view() == old(self).pending_view()
                },
                Delivery::Full => {
                    &&& step is Stop
                    &&& final(self).park_view() == old(self).park_view()
                    &&& final(self).pending_view() == seq![msg] + old(self).pending_view()
                },
                Delivery::Refused => {
                    &&& step == FlushStep::Fail(ForeignError::Refused { port: msg.port })
                    &&& final(self).park_view() == old(self).park_view()
                    &&& final(self).pending_view() == old(self).pending_view()
                },
            },
    {
        match outcome {
            Delivery::Accepted => {
                self.park = Park::No;
                FlushStep::Continue
            },
            Delivery::Full => {
                self.pending.push_front(msg);
                FlushStep::Stop
            },
            Delivery::Refused => FlushStep::Fail(ForeignError::Refused { port: msg.port }),
        }
    }

    /// What the park check does, given whether the clock has reached the
    /// park's deadline (asked only of a park with a deadline): a park with
    /// no deadline holds; a deadline park holds until its deadline, and is
    /// cleared once it has passed.
    pub fn settle_park(&mut self, deadline_passed: bool) -> (r: bool)
        ensures
            r == park_holds(old(self).park_view(), deadline_passed),
            final(self).park_view() == park_after(old(self).park_view(), deadline_passed),
            final(self).inner_view() == old(self).inner_view(),
            final(self).same_settings(old(self)),
            final(self).same_logs(old(self)),
            final(self).pending_view() == old(self).pending_view(),
            final(self).outbox_view() == old(self).outbox_view(),
    {
        match &self.park {
            Park::No => false,
            Park::Indefinite => true,
            Park::Until(_) => {
                if deadline_passed {
                    self.park = Park::No;
                    false
                } else {
                    true
                }
            },
        }
    }

    /// True while a park is still in effect (no deadline, or deadline in
    /// the future). A passed deadline clears the park.
    pub fn still_parked(&mut self) -> (r: bool)
        ensures
            exists|passed: bool|
                r == #[trigger] park_holds(old(self).park_view(), passed) && final(self).park_view()
                    == park_after(old(self).park_view(), passed),
            !(old(self).park_view() is Until) ==> final(self).unchanged_from(old(self)),
            final(self).inner_view() == old(self).inner_view(),
            final(self).same_settings(old(self)),
            final(self).same_logs(old(self)),
            final(self).pending_view() == old(self).pending_view(),
            final(self).outbox_view() == old(self).outbox_view(),
    {
        let passed = match &self.park {
            Park::Until(deadline) => {
                let now = clock_now();
                instant_at_or_after(&now, deadline)
            },
            _ => false,
        };
        let r = self.settle_park(passed);
        assert(r == park_holds(old(self).park_view(), passed));
        r
    }

    /// Park after the handle reported it cannot progress: until the hinted
    /// deadline, or with no deadline when the hint has none (or when the
    /// clock cannot represent the deadline).
    fn park_for(&mut self, hint: WaitHint)
        ensures
            hint.timeout is None ==> final(self).park_view() is Indefinite,
            !(final(self).park_view() is No),
            final(self).inner_view() == old(self).inner_view(),
            final(self).same_settings(old(self)),
            final(self).same_logs(old(self)),
            final(self).pending_view() == old(self).pending_view(),
            final(self).outbox_view() == old(self).outbox_view(),
    {
        match hint.timeout {
            None => {
                self.park = Park::Indefinite;
            },
            Some(wait) => {
                let now = clock_now();
                match deadline_after(now, wait) {
                    Some(deadline) => {
                        self.park = Park::Until(deadline);
                    },
                    None => {
                        self.park = Park::Indefinite;
                    },
                }
            },
        }
    }

    /// What the adapter does with the outcome of one drive: progress keeps
    /// the slice going; a park is recorded (until the hinted deadline, or
    /// with no deadline); completion and failure end the slice.
    pub fn absorb_drive(&mut self, outcome: Result<Drove, anyhow::Error>) -> (step: DriveStep)
        ensures
            final(self).same_logs(old(self)),
            match outcome {
                Ok(Drove::Progressed) => step is KeepDriving && final(self).unchanged_from(old(self)),
                Ok(Drove::Parked(hint)) => {
                    &&& step is Parked
                    &&& (hint.timeout is None ==> final(self).park_view() is Indefinite)
                    &&& !(final(self).park_view() is No)
                    &&& final(self).inner_view() == old(self).inner_view()
                    &&& final(self).same_settings(old(self))
                    &&& final(self).pending_view() == old(self).pending_view()
                    &&& final(self).outbox_view() == old(self).outbox_view()
                },
                Ok(Drove::Done) => step is Finished && final(self).unchanged_from(old(self)),
                Ok(Drove::Failed(e)) => step == DriveStep::Failed(ForeignError::Failed(e))
                    && final(self).unchanged_from(old(self)),
                Err(e) => step == DriveStep::Failed(ForeignError::Failed(e))
                    && final(self).unchanged_from(old(self)),
            },
    {
        match outcome {
            Ok(Drove::Progressed) => DriveStep::KeepDriving,
            Ok(Drove::Parked(hint)) => {
                self.park_for(hint);
                DriveStep::Parked
            },
            Ok(Drove::Done) => DriveStep::Finished,
            Ok(Drove::Failed(e)) => DriveStep::Failed(ForeignError::Failed(e)),
            Err(e) => DriveStep::Failed(ForeignError::Failed(e)),
        }
    }

    /// One tick: retry the buffer, then, unless a park is still in effect,
    /// drive the handle until it parks, finishes, fails or spends the slice
    /// budget. `Ok(false)` means the handle ran to completion (its last
    /// output is drained into the outbox).
    pub fn on_tick(&mut self) -> (r: Result<bool, ForeignError>)
        ensures
            final(self).same_settings(old(self)),
            retains_suffix(old(self).pending_view(), final(self).pending_view()),
            old(self).outbox_view().is_prefix_of(final(self).outbox_view()),
            old(self).pending_view().len() == 0 && old(self).park_view() is Indefinite ==> r
                == Ok::<bool, ForeignError>(true) && final(self).unchanged_from(old(self)),
            old(self).pending_view().len() == 0 ==> exists|passed: bool|
                #![trigger park_holds(old(self).park_view(), passed)]
                if park_holds(old(self).park_view(), passed) {
                    r == Ok::<bool, ForeignError>(true) && final(self).unchanged_from(old(self))
                } else {
                    r != Ok::<bool, ForeignError>(true) ==> final(self).park_view() is No
                },
            r == Ok::<bool, ForeignError>(false) ==> final(self).park_view() is No,
            r matches Err(ForeignError::Failed(_)) ==> final(self).park_view() is No,
            match r {
                Err(ForeignError::FullRefused { .. }) => false,
                Err(ForeignError::BufferOverflow { .. }) => false,
                Err(ForeignError::Refused { port }) => exists|i: int|
                    0 <= i < old(self).pending_view().len() && #[trigger] old(self).pending_view()[i].port == port,
                _ => true,
            },
            old(self).offers_view().is_prefix_of(final(self).offers_view()),
            exists|fr: Result<(), ForeignError>|
                #[trigger] retry_answered(
                    old(self).pending_view(),
                    final(self).offers_view().skip(old(self).offers_view().len() as int),
                    final(self).pending_view(),
                    fr,
                ) && match fr {
                    Err(e) => r == Err::<bool, ForeignError>(e),
                    Ok(()) => !(r matches Err(ForeignError::Refused { .. })),
                },
            forall|i: int|
                0 <= i < final(self).offers_view().len() - old(self).offers_view().len() && (
                #[trigger] final(self).offers_view().skip(old(self).offers_view().len() as int)[i]).1
                    == Delivery::Refused ==> r == Err::<bool, ForeignError>(
                    ForeignError::Refused { port: old(self).pending_view()[i].port },
                ),
            old(self).handed_view().is_prefix_of(final(self).handed_view()),
            final(self).outbox_view() == old(self).outbox_view() + final(self).handed_view().skip(
                old(self).handed_view().len() as int,
            ),
            r != Ok::<bool, ForeignError>(false) ==> final(self).handed_view() == old(self).handed_view(),
    {
        let ghost n0 = self.offers@.len() as int;
        let flushed = self.flush_pending();
        let ghost offered = self.offers@.skip(n0);
        let ghost flushed_pending = self.pending@;
        let ghost mid_offers = self.offers@;
        proof {
            assert(retry_answered(old(self).pending_view(), offered, flushed_pending, flushed));
            assert forall|i: int|
                0 <= i < offered.len() && (#[trigger] offered[i]).1 == Delivery::Refused implies flushed
                == Err::<(), ForeignError>(ForeignError::Refused { port: old(self).pending_view()[i].port }) by {
                lemma_retry_refusal_fails(old(self).pending_view(), offered, flushed_pending, flushed, i);
            }
            assert(self.handed@.skip(old(self).handed@.len() as int) =~= Seq::<PortMsg>::empty());
            assert(self.outbox@ =~= old(self).outbox@ + self.handed@.skip(old(self).handed@.len() as int));
        }
        let ghost k0 = choose|k: int|
            #[trigger] flush_post(
                old(self).pending_view(),
                k,
                self.pending_view(),
                old(self).park_view(),
                self.park_view(),
                flushed,
            );
        match flushed {
            Err(e) => {
                assert(old(self).pending_view().skip(k0 + 1) == self.pending_view());
                assert(old(self).pending_view()[k0].port == old(self).pending_view()[k0].port);
                return Err(e);
            },
            Ok(()) => {},
        }
        assert(old(self).pending_view().skip(k0) == self.pending_view());
        let ghost p1 = self.park_view();
        let ghost mid = *self;
        assert(old(self).pending_view().len() == 0 ==> p1 == old(self).park_view() && mid.unchanged_from(old(self)));
        let held = self.still_parked();
        let ghost passed = choose|b: bool|
            held == #[trigger] park_holds(p1, b) && self.park_view() == park_after(p1, b);
        if held {
            assert(park_holds(old(self).park_view(), passed) || old(self).pending_view().len() > 0);
            return Ok(true);
        }
        assert(self.park_view() is No);
        proof {
            lemma_retry_ok_only_if_accepted(old(self).pending_view(), offered, flushed_pending);
        }
        let start = clock_now();
        let mut drives: u64 = 0;
        loop
            invariant
                self.same_settings(old(self)),
                0 <= k0 <= old(self).pending_view().len(),
                self.pending_view() == old(self).pending_view().skip(k0),
                old(self).outbox_view().is_prefix_of(self.outbox_view()),
                !(old(self).pending_view().len() == 0 && old(self).park_view() is Indefinite),
                self.park_view() is No,
                !park_holds(p1, passed),
                old(self).pending_view().len() == 0 ==> p1 == old(self).park_view(),
                n0 == old(self).offers@.len(),
                self.offers@ == mid_offers,
                offered == mid_offers.skip(n0),
                self.pending@ == flushed_pending,
                flushed is Ok,
                retry_answered(old(self).pending_view(), offered, flushed_pending, flushed),
                self.outbox@ == old(self).outbox@,
                self.handed@ == old(self).handed@,
                old(self).offers@.is_prefix_of(mid_offers),
                forall|i: int|
                    0 <= i < offered.len() ==> (#[trigger] offered[i]).1 != Delivery::Refused,
            decreases u64::MAX - drives,
        {
            let outcome = self.inner.drive();
            let step = self.absorb_drive(outcome);
            let finished = match &step {
                DriveStep::Finished => true,
                _ => false,
            };
            if finished {
                self.drain_inner();
                assert(self.outbox@ =~= old(self).outbox@ + self.handed@.skip(old(self).handed@.len() as int));
            }
            let spent = match &step {
                DriveStep::KeepDriving => {
                    let elapsed = elapsed_since(&start);
                    duration_at_least(&elapsed, &self.slice_budget) || drives == u64::MAX
                },
                _ => false,
            };
            match tick_verdict(step, spent) {
                Some(r) => {
                    assert(old(self).pending_view().len() == 0 ==> !park_holds(old(self).park_view(), passed));
                    return r;
                },
                None => {},
            }
            drives = drives + 1;
        }
    }

    /// Move the handle's produced output to the end of the outbox.
    fn drain_inner(&mut self)
        ensures
            final(self).outbox_view().len() >= old(self).outbox_view().len(),
            final(self).outbox_view().subrange(0, old(self).outbox_view().len() as int)
                == old(self).outbox_view(),
            final(self).same_settings(old(self)),
            final(self).pending_view() == old(self).pending_view(),
            final(self).park_view() == old(self).park_view(),
            final(self).offers_view() == old(self).offers_view(),
            old(self).handed_view().is_prefix_of(final(self).handed_view()),
            final(self).outbox_view() == old(self).outbox_view() + final(self).handed_view().skip(
                old(self).handed_view().len() as int,
            ),
    {
        let mut drained = self.inner.drain();
        let ghost d = drained@;
        self.handed = Ghost(self.handed@ + d);
        self.outbox.append(&mut drained);
        assert(self.outbox@.subrange(0, old(self).outbox@.len() as int) =~= old(self).outbox@);
        assert(self.handed@.skip(old(self).handed@.len() as int) =~= d);
        assert(self.handed@.subrange(0, old(self).handed@.len() as int) =~= old(self).handed@);
    }

    /// Collect the output buffered since the last call, oldest first,
    /// leaving the outbox empty.
    pub fn take_output(&mut self) -> (r: Vec<PortMsg>)
        ensures
            r@.len() >= old(self).outbox_view().len(),
            r@.subrange(0, old(self).outbox_view().len() as int) == old(self).outbox_view(),
            final(self).outbox_view() == Seq::<PortMsg>::empty(),
            final(self).same_settings(old(self)),
            final(self).pending_view() == old(self).pending_view(),
            final(self).park_view() == old(self).park_view(),
            final(self).offers_view() == old(self).offers_view(),
            old(self).handed_view().is_prefix_of(final(self).handed_view()),
            r@ == old(self).outbox_view() + final(self).handed_view().skip(
                old(self).handed_view().len() as int,
            ),
            r@.len() == old(self).outbox_view().len() + (final(self).handed_view().len()
                - old(self).handed_view().len()),
    {
        self.drain_inner();
        let mut out: Vec<PortMsg> = Vec::new();
        std::mem::swap(&mut out, &mut self.outbox);
        out
    }

    /// The handle's measured saturation as the fraction `spent / limit`, if
    /// it reports both and the limit is non-zero.
    pub fn saturation_ratio(&self) -> (r: Option<(u64, u64)>)
        ensures
            exists|m: ForeignMetrics| r == saturation_fraction(m),
    {
        let m = self.inner.metrics();
        m.saturation_ratio()
    }

    /// A control signal reached the actor. On `Stop` the handle gets a
    /// chance to reach a clean stop point; the result says whether it could
    /// not, in which case its state is simply dropped with the actor. (The
    /// orchestrator's passivation, which keeps the bytes, goes through
    /// [`Self::passivate`].) Other signals leave the adapter untouched.
    pub fn on_signal(&mut self, signal: ControlSignal) -> (state_dropped: bool)
        ensures
            signal != ControlSignal::Stop ==> !state_dropped && final(self).unchanged_from(old(self)),
            final(self).same_settings(old(self)),
            final(self).same_logs(old(self)),
            final(self).pending_view() == old(self).pending_view(),
            final(self).park_view() == old(self).park_view(),
            final(self).outbox_view() == old(self).outbox_view(),
    {
        match signal {
            ControlSignal::Stop => self.inner.passivate().is_none(),
            _ => false,
        }
    }

    /// Serialize the handle for dormancy. Undelivered input is real state
    /// that cannot be captured, so the adapter refuses while anything is
    /// buffered; otherwise the handle decides.
    pub fn passivate(&mut self) -> (r: Option<Vec<u8>>)
        ensures
            old(self).pending_view().len() > 0 ==> r is None && final(self).unchanged_from(old(self)),
            final(self).same_settings(old(self)),
            final(self).same_logs(old(self)),
            final(self).pending_view() == old(self).pending_view(),
            final(self).park_view() == old(self).park_view(),
            final(self).outbox_view() == old(self).outbox_view(),
    {
        if self.pending.len() > 0 {
            return None;
        }
        self.inner.passivate()
    }

    /// The tick interval the run loop should use.
    pub fn interval(&self) -> (r: Duration)
        ensures
            r == self.tick_interval_view(),
    {
        self.tick_interval
    }
}

/// Under `Buffer(cap)`, a delivery never takes the retry buffer past `cap`
/// messages, and a `Full` port on a buffer at capacity is an overflow error.
pub proof fn lemma_buffer_never_overflows(
    pending: Seq<PortMsg>,
    cap: usize,
    data: PortMsg,
    outcome: Delivery,
    new_pending: Seq<PortMsg>,
    r: Result<(), ForeignError>,
)
    requires
        pending.len() <= cap,
        delivery_post(pending, BackpressurePolicy::Buffer(cap), data, outcome, new_pending, r),
    ensures
        new_pending.len() <= cap,
        outcome == Delivery::Full && pending.len() == cap ==> r == Err::<(), ForeignError>(
            ForeignError::BufferOverflow { port: data.port, cap },
        ),
{
}

/// Under `Refuse`, nothing is ever buffered and a full port is an error.
pub proof fn lemma_refuse_policy_never_buffers(
    pending: Seq<PortMsg>,
    data: PortMsg,
    outcome: Delivery,
    new_pending: Seq<PortMsg>,
    r: Result<(), ForeignError>,
)
    requires
        delivery_post(pending, BackpressurePolicy::Refuse, data, outcome, new_pending, r),
    ensures
        new_pending == pending,
        outcome == Delivery::Full ==> r is Err,
        r is Ok <==> outcome == Delivery::Accepted,
{
}

/// Output is handed on whole and in order: two successive `take_output`
/// calls (the first from an outbox `o0` with `h0` handed over so far,
/// leaving `h1`; the second, after more output was collected into `o1` as
/// `on_tick` collects it, leaving `h2`) return, together, the first outbox
/// followed by every message the handle handed over in between, each
/// once, in the order handed over: none dropped, none added.
pub proof fn lemma_taken_output_is_all_handed_over(
    o0: Seq<PortMsg>,
    h0: Seq<PortMsg>,
    h1: Seq<PortMsg>,
    o1: Seq<PortMsg>,
    h1b: Seq<PortMsg>,
    h2: Seq<PortMsg>,
    r1: Seq<PortMsg>,
    r2: Seq<PortMsg>,
)
    requires
        // the first take_output
        h0.is_prefix_of(h1),
        r1 == o0 + h1.skip(h0.len() as int),
        // ticks in between, starting from the empty outbox the take left
        h1.is_prefix_of(h1b),
        o1 == Seq::<PortMsg>::empty() + h1b.skip(h1.len() as int),
        // the second take_output
        h1b.is_prefix_of(h2),
        r2 == o1 + h2.skip(h1b.len() as int),
    ensures
        r1 + r2 == o0 + h2.skip(h0.len() as int),
        (r1 + r2).len() == o0.len() + h2.len() - h0.len(),
{
    assert(h1b.is_prefix_of(h2));
    assert(h1.is_prefix_of(h2)) by {
        assert forall|i: int| 0 <= i < h1.len() implies h1[i] == h2[i] by {
            assert(h1[i] == h1b[i]);
        }
    }
    assert(h0.is_prefix_of(h2)) by {
        assert forall|i: int| 0 <= i < h0.len() implies h0[i] == h2[i] by {
            assert(h0[i] == h1[i]);
        }
    }
    assert(h1.skip(h0.len() as int) + h1b.skip(h1.len() as int) + h2.skip(h1b.len() as int)
        =~= h2.skip(h0.len() as int));
    assert(r1 + r2 =~= o0 + h2.skip(h0.len() as int));
}

/// Retrying the buffer preserves its order: what remains is the buffer
/// minus some messages from its front, and the remaining messages are tried
/// first at the next tick.
pub proof fn lemma_retry_keeps_order(
    pending: Seq<PortMsg>,
    k: int,
    new_pending: Seq<PortMsg>,
    park: Park,
    new_park: Park,
    r: Result<(), ForeignError>,
)
    requires
        flush_post(pending, k, new_pending, park, new_park, r),
    ensures
        retains_suffix(pending, new_pending),
        forall|i: int| 0 <= i < new_pending.len() ==> new_pending[i] == pending[i + pending.len() - new_pending.len()],
{
    if r is Ok {
        assert(pending.skip(k) == new_pending);
    } else {
        assert(pending.skip(k + 1) == new_pending);
    }
}

} // verus!
