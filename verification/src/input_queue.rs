//! Pty input queueing: the per-pane byte budget every pending input is
//! charged against, the ordered overflow buffer behind a full channel, and
//! the routing of one input between channel and overflow.

use vstd::prelude::*;

use std::collections::VecDeque;
use std::sync::atomic::AtomicUsize;

verus! {

/// Capacity, in messages, of a pane's input channel.
pub const PTY_INPUT_QUEUE_CAPACITY: usize = 1024;

/// Ceiling on all bytes pending for one pane, channel and overflow together.
pub const PTY_INPUT_PENDING_BYTE_CAP: usize = 8388608;

/// Small frames are charged at least this much, so per-message overhead is
/// bounded along with payload bytes.
pub const PTY_INPUT_PENDING_MIN_CHARGE: usize = 1024;

/// What one input costs against the budget.
pub open spec fn charge_of(len: usize) -> usize {
    if len > PTY_INPUT_PENDING_MIN_CHARGE {
        len
    } else {
        PTY_INPUT_PENDING_MIN_CHARGE
    }
}

/// The pending total after admitting `charge` on top of `current`, or
/// `None` when that would pass the cap.
pub open spec fn admitted(current: usize, charge: usize) -> Option<usize> {
    if current + charge <= PTY_INPUT_PENDING_BYTE_CAP {
        Some((current + charge) as usize)
    } else {
        None
    }
}

/// The charge of an input of `len` bytes.
pub fn input_charge(len: usize) -> (c: usize)
    ensures
        c == charge_of(len),
{
    if len > PTY_INPUT_PENDING_MIN_CHARGE {
        len
    } else {
        PTY_INPUT_PENDING_MIN_CHARGE
    }
}

/// Admit `charge` on top of `current` pending bytes, unless the total
/// would pass the cap.
pub fn admit_charge(current: usize, charge: usize) -> (r: Option<usize>)
    ensures
        r == admitted(current, charge),
{
    match current.checked_add(charge) {
        Some(next) => if next <= PTY_INPUT_PENDING_BYTE_CAP {
            Some(next)
        } else {
            None
        },
        None => None,
    }
}

/// `std`'s `AtomicUsize::fetch_update`, with [`admit_charge`] as the
/// update: per its documentation it applies the update to the current
/// value until the store succeeds, returning `Ok(previous)` when the update
/// gave `Some`, or `Err(current)` as soon as it gave `None`. What the
/// previous value was is up to the other threads.
#[verifier::external_body]
fn fetch_admit(pending: &AtomicUsize, charge: usize) -> (r: Result<usize, usize>)
    ensures
        match r {
            Ok(previous) => admitted(previous, charge) is Some,
            Err(current) => admitted(current, charge) is None,
        },
{
    pending.fetch_update(
        std::sync::atomic::Ordering::AcqRel,
        std::sync::atomic::Ordering::Acquire,
        |current| admit_charge(current, charge),
    )
}

/// Reserve an input of `len` bytes against a pane's shared budget,
/// returning its charge, or `None` when the pane is at its cap and the
/// input must be dropped.
pub fn reserve_budget(pending: &AtomicUsize, len: usize) -> (r: Option<usize>)
    ensures
        match r {
            Some(c) => c == charge_of(len) && exists|previous: usize|
                admitted(previous, c) is Some,
            None => exists|current: usize| admitted(current, charge_of(len)) is None,
        },
{
    let charge = input_charge(len);
    match fetch_admit(pending, charge) {
        Ok(_) => Some(charge),
        Err(_) => None,
    }
}

/// Release a reservation's charge once its bytes are written or dropped.
pub fn release_budget(pending: &AtomicUsize, charge: usize) {
    let _ = pending.fetch_sub(charge, std::sync::atomic::Ordering::AcqRel);
}

/// The outcome of queueing one input.
#[derive(Clone, Copy, Debug, PartialEq, Eq, Structural)]
pub enum QueueInputResult {
    Queued,
    Deferred,
    /// The pane is at its byte cap; the input was discarded.
    Dropped,
    Disconnected,
}

/// What a non-blocking send into the input channel did.
#[derive(Clone, Copy, Debug, PartialEq, Eq, Structural)]
pub enum SendOutcome {
    Sent,
    Full,
    Disconnected,
}

/// What [`InputOverflow::route`] does: behind an active drainer the input
/// parks and nothing is handed back; otherwise it is handed back to send.
pub open spec fn routed<T>(o: OverflowModel<T>, input: T) -> (OverflowModel<T>, Option<T>) {
    if o.drainer_active {
        (OverflowModel { queue: o.queue.push(input), drainer_active: true }, None)
    } else {
        (o, Some(input))
    }
}

/// What [`InputOverflow::after_send`] does with a send's outcome.
pub open spec fn after_sent<T>(o: OverflowModel<T>, outcome: SendOutcome, rejected: Option<T>) -> (
    OverflowModel<T>,
    (QueueInputResult, bool),
) {
    match outcome {
        SendOutcome::Sent => (o, (QueueInputResult::Queued, false)),
        SendOutcome::Disconnected => (o, (QueueInputResult::Disconnected, false)),
        SendOutcome::Full => (
            OverflowModel {
                queue: match rejected {
                    Some(x) => o.queue.push(x),
                    None => o.queue,
                },
                drainer_active: true,
            },
            (QueueInputResult::Deferred, true),
        ),
    }
}

/// What [`InputOverflow::pop`] does: the oldest parked input leaves; with
/// none left the drainer stops.
pub open spec fn popped<T>(o: OverflowModel<T>) -> (OverflowModel<T>, Option<T>) {
    if o.queue.len() > 0 {
        (OverflowModel { queue: o.queue.drop_first(), drainer_active: o.drainer_active }, Some(o.queue[0]))
    } else {
        (OverflowModel { queue: o.queue, drainer_active: false }, None)
    }
}

/// The ordered overflow behind a full input channel: inputs park here while
/// a drainer forwards them, and every later input joins the back, so inputs
/// never overtake each other.
pub struct InputOverflow<T> {
    queue: VecDeque<T>,
    drainer_active: bool,
}

/// The state of an [`InputOverflow`]: parked inputs, oldest first, and
/// whether a drainer is forwarding them.
pub struct OverflowModel<T> {
    pub queue: Seq<T>,
    pub drainer_active: bool,
}

impl<T> View for InputOverflow<T> {
    type V = OverflowModel<T>;

    closed spec fn view(&self) -> OverflowModel<T> {
        OverflowModel { queue: self.queue@, drainer_active: self.drainer_active }
    }
}

impl<T> InputOverflow<T> {
    /// Nothing parked, no drainer.
    pub fn new() -> (o: InputOverflow<T>)
        ensures
            o@.queue.len() == 0,
            !o@.drainer_active,
    {
        InputOverflow { queue: VecDeque::new(), drainer_active: false }
    }

    /// Whether a drainer is forwarding parked inputs.
    pub fn drainer_active(&self) -> (r: bool)
        ensures
            r == self@.drainer_active,
    {
        self.drainer_active
    }

    /// Park `input` behind every parked input.
    pub fn park(&mut self, input: T)
        ensures
            final(self)@.queue == old(self)@.queue.push(input),
            final(self)@.drainer_active == old(self)@.drainer_active,
    {
        self.queue.push_back(input);
    }

    /// Route one input that passed the budget: behind an active drainer it
    /// parks (deferred); otherwise the caller tries the channel.
    pub fn route(&mut self, input: T) -> (r: Option<T>)
        ensures
            old(self)@.drainer_active ==> r is None && final(self)@.queue == old(self)@.queue.push(
                input,
            ),
            !old(self)@.drainer_active ==> r == Some(input) && final(self)@.queue == old(self)@.queue,
            final(self)@.drainer_active == old(self)@.drainer_active,
            (final(self)@, r) == routed(old(self)@, input),
    {
        if self.drainer_active {
            self.park(input);
            None
        } else {
            Some(input)
        }
    }

    /// After a non-blocking send of an input that was not parked: a full
    /// channel parks the input (handed back as `rejected`) and starts the
    /// drainer; returns the outcome and whether a drainer must be started.
    pub fn after_send(&mut self, outcome: SendOutcome, rejected: Option<T>) -> (r: (
        QueueInputResult,
        bool,
    ))
        ensures
            outcome == SendOutcome::Sent ==> r == (QueueInputResult::Queued, false) && final(self)@ == old(self)@,
            outcome == SendOutcome::Disconnected ==> r == (QueueInputResult::Disconnected, false)
                && final(self)@ == old(self)@,
            outcome == SendOutcome::Full ==> r == (QueueInputResult::Deferred, true)
                && final(self)@.drainer_active && final(self)@.queue == match rejected {
                Some(x) => old(self)@.queue.push(x),
                None => old(self)@.queue,
            },
            (final(self)@, r) == after_sent(old(self)@, outcome, rejected),
    {
        match outcome {
            SendOutcome::Sent => (QueueInputResult::Queued, false),
            SendOutcome::Disconnected => (QueueInputResult::Disconnected, false),
            SendOutcome::Full => {
                match rejected {
                    Some(x) => self.park(x),
                    None => {},
                }
                self.drainer_active = true;
                (QueueInputResult::Deferred, true)
            },
        }
    }

    /// The drainer's next input, oldest first; when none is left the
    /// drainer stops, under the same call that saw the buffer empty.
    pub fn pop(&mut self) -> (r: Option<T>)
        ensures
            old(self)@.queue.len() > 0 ==> r == Some(old(self)@.queue[0]) && final(self)@.queue
                == old(self)@.queue.drop_first() && final(self)@.drainer_active == old(self)@.drainer_active,
            old(self)@.queue.len() == 0 ==> r is None && final(self)@.queue.len() == 0
                && !final(self)@.drainer_active,
            (final(self)@, r) == popped(old(self)@),
    {
        match self.queue.pop_front() {
            Some(x) => Some(x),
            None => {
                self.drainer_active = false;
                None
            },
        }
    }

    /// Drop every parked input and stop the drainer (the channel is gone or
    /// no drainer could start).
    pub fn reset(&mut self)
        ensures
            final(self)@.queue.len() == 0,
            !final(self)@.drainer_active,
    {
        self.queue.clear();
        self.drainer_active = false;
    }
}

/// Parked inputs leave in the order they arrived: parking `x` behind the
/// queue `q` keeps every earlier input where it was, so the drainer pops
/// all of them first and `x` right after.
pub proof fn lemma_overflow_is_fifo<T>(q: Seq<T>, x: T)
    ensures
        forall|i: int| 0 <= i < q.len() ==> q.push(x)[i] == q[i],
        q.push(x)[q.len() as int] == x,
        q.push(x).len() == q.len() + 1,
{
}

/// A pane's whole input path: what the io thread has received, the bounded
/// channel's contents, the input the drainer holds between taking it from
/// the overflow and sending it, the overflow, and every input accepted
/// (queued or deferred) so far, in call order.
pub struct PipeModel<T> {
    pub received: Seq<T>,
    pub channel: Seq<T>,
    pub in_flight: Seq<T>,
    pub overflow: OverflowModel<T>,
    pub accepted: Seq<T>,
}

/// One thing that happens on the input path.
pub enum PipeEvent<T> {
    /// The ui thread queues an input that passed the byte budget.
    Queue(T),
    /// The drainer takes the oldest parked input ([`InputOverflow::pop`]).
    DrainerPop,
    /// The drainer's blocking send completes.
    DrainerSend,
    /// The io thread receives from the channel.
    Receive,
}

/// Nothing is lost or reordered: received, channel, in-flight and parked
/// inputs, in that order, are exactly the accepted inputs; the channel holds
/// at most `capacity`; without a drainer nothing is parked or in flight.
pub open spec fn pipe_ok<T>(p: PipeModel<T>, capacity: nat) -> bool {
    &&& p.received + p.channel + p.in_flight + p.overflow.queue == p.accepted
    &&& p.channel.len() <= capacity
    &&& p.in_flight.len() <= 1
    &&& !p.overflow.drainer_active ==> p.in_flight.len() == 0 && p.overflow.queue.len() == 0
}

/// Queueing `x`: behind an active drainer it parks ([`InputOverflow::route`]);
/// otherwise it is sent, and a full channel parks it and starts the drainer
/// ([`InputOverflow::after_send`]).
pub open spec fn queue_step<T>(p: PipeModel<T>, x: T, capacity: nat) -> (PipeModel<T>, QueueInputResult) {
    if p.overflow.drainer_active {
        (
            PipeModel {
                overflow: OverflowModel { queue: p.overflow.queue.push(x), drainer_active: true },
                accepted: p.accepted.push(x),
                ..p
            },
            QueueInputResult::Deferred,
        )
    } else if p.channel.len() < capacity {
        (PipeModel { channel: p.channel.push(x), accepted: p.accepted.push(x), ..p }, QueueInputResult::Queued)
    } else {
        (
            PipeModel {
                overflow: OverflowModel { queue: p.overflow.queue.push(x), drainer_active: true },
                accepted: p.accepted.push(x),
                ..p
            },
            QueueInputResult::Deferred,
        )
    }
}

/// The effect of one event; a drainer still holding an input does not pop,
/// and a send or receive that cannot proceed yet changes nothing.
pub open spec fn pipe_step<T>(p: PipeModel<T>, e: PipeEvent<T>, capacity: nat) -> PipeModel<T> {
    match e {
        PipeEvent::Queue(x) => queue_step(p, x, capacity).0,
        PipeEvent::DrainerPop => if p.in_flight.len() > 0 {
            p
        } else if p.overflow.queue.len() > 0 {
            PipeModel {
                in_flight: seq![p.overflow.queue[0]],
                overflow: OverflowModel { queue: p.overflow.queue.drop_first(), ..p.overflow },
                ..p
            }
        } else {
            PipeModel { overflow: OverflowModel { drainer_active: false, ..p.overflow }, ..p }
        },
        PipeEvent::DrainerSend => if p.in_flight.len() > 0 && p.channel.len() < capacity {
            PipeModel { channel: p.channel.push(p.in_flight[0]), in_flight: Seq::empty(), ..p }
        } else {
            p
        },
        PipeEvent::Receive => if p.channel.len() > 0 {
            PipeModel { received: p.received.push(p.channel[0]), channel: p.channel.drop_first(), ..p }
        } else {
            p
        },
    }
}

/// The path after `events`, in order.
pub open spec fn pipe_run<T>(p: PipeModel<T>, events: Seq<PipeEvent<T>>, capacity: nat) -> PipeModel<T>
    decreases events.len(),
{
    if events.len() == 0 {
        p
    } else {
        pipe_step(pipe_run(p, events.drop_last(), capacity), events.last(), capacity)
    }
}

/// A fresh pane: nothing accepted, parked or received.
pub open spec fn pipe_empty<T>() -> PipeModel<T> {
    PipeModel {
        received: Seq::empty(),
        channel: Seq::empty(),
        in_flight: Seq::empty(),
        overflow: OverflowModel { queue: Seq::empty(), drainer_active: false },
        accepted: Seq::empty(),
    }
}

proof fn lemma_pipe_step_ok<T>(p: PipeModel<T>, e: PipeEvent<T>, capacity: nat)
    requires
        pipe_ok(p, capacity),
    ensures
        pipe_ok(pipe_step(p, e, capacity), capacity),
        pipe_step(p, e, capacity).accepted.len() >= p.accepted.len(),
{
    let q = pipe_step(p, e, capacity);
    match e {
        PipeEvent::Queue(x) => {
            if p.overflow.drainer_active {
                assert(q.received + q.channel + q.in_flight + q.overflow.queue =~= (p.received + p.channel
                    + p.in_flight + p.overflow.queue).push(x));
            } else if p.channel.len() < capacity {
                assert(p.in_flight.len() == 0 && p.overflow.queue.len() == 0);
                assert(q.received + q.channel + q.in_flight + q.overflow.queue =~= (p.received + p.channel
                    + p.in_flight + p.overflow.queue).push(x));
            } else {
                assert(q.received + q.channel + q.in_flight + q.overflow.queue =~= (p.received + p.channel
                    + p.in_flight + p.overflow.queue).push(x));
            }
        },
        PipeEvent::DrainerPop => {
            if p.in_flight.len() == 0 && p.overflow.queue.len() > 0 {
                assert(q.in_flight + q.overflow.queue =~= p.overflow.queue);
                assert(q.received + q.channel + q.in_flight + q.overflow.queue =~= p.received + p.channel
                    + p.in_flight + p.overflow.queue);
            }
        },
        PipeEvent::DrainerSend => {
            if p.in_flight.len() > 0 && p.channel.len() < capacity {
                assert(p.in_flight =~= seq![p.in_flight[0]]);
                assert(q.received + q.channel + q.in_flight + q.overflow.queue =~= p.received + p.channel
                    + p.in_flight + p.overflow.queue);
            }
        },
        PipeEvent::Receive => {
            if p.channel.len() > 0 {
                assert(q.received + q.channel =~= p.received + p.channel);
                assert(q.received + q.channel + q.in_flight + q.overflow.queue =~= p.received + p.channel
                    + p.in_flight + p.overflow.queue);
            }
        },
    }
}

/// Input never overtakes input queued before it. From a fresh pane, after
/// any interleaving of queue calls, drainer steps and receives, what the io
/// thread has received is the accepted inputs in call order, up to some
/// point, and the rest wait in the channel, in flight or parked, in order;
/// the channel never exceeds its capacity.
pub proof fn lemma_input_never_overtakes<T>(events: Seq<PipeEvent<T>>, capacity: nat)
    ensures
        pipe_ok(pipe_run(pipe_empty::<T>(), events, capacity), capacity),
        pipe_run(pipe_empty::<T>(), events, capacity).received.len() <= pipe_run(
            pipe_empty::<T>(),
            events,
            capacity,
        ).accepted.len(),
        pipe_run(pipe_empty::<T>(), events, capacity).received == pipe_run(
            pipe_empty::<T>(),
            events,
            capacity,
        ).accepted.take(pipe_run(pipe_empty::<T>(), events, capacity).received.len() as int),
    decreases events.len(),
{
    let e0 = pipe_empty::<T>();
    if events.len() == 0 {
        assert(e0.received + e0.channel + e0.in_flight + e0.overflow.queue =~= e0.accepted);
    } else {
        lemma_input_never_overtakes(events.drop_last(), capacity);
        lemma_pipe_step_ok(pipe_run(e0, events.drop_last(), capacity), events.last(), capacity);
    }
    let r = pipe_run(e0, events, capacity);
    let rest = r.channel + r.in_flight + r.overflow.queue;
    assert(r.received + r.channel + r.in_flight + r.overflow.queue =~= r.received + rest);
    assert(r.accepted.take(r.received.len() as int) =~= r.received);
}

/// What a queue call answers: queued straight into the channel only with no
/// drainer running and room in the channel; otherwise deferred, without
/// blocking, and in particular whenever `capacity` inputs wait unreceived.
pub proof fn lemma_queue_answers<T>(p: PipeModel<T>, x: T, capacity: nat)
    requires
        pipe_ok(p, capacity),
    ensures
        queue_step(p, x, capacity).1 == QueueInputResult::Queued <==> !p.overflow.drainer_active
            && p.channel.len() < capacity,
        queue_step(p, x, capacity).1 == QueueInputResult::Queued || queue_step(p, x, capacity).1
            == QueueInputResult::Deferred,
        p.channel.len() == capacity ==> queue_step(p, x, capacity).1 == QueueInputResult::Deferred,
        queue_step(p, x, capacity).0.accepted == p.accepted.push(x),
{
}

/// The pipe model's steps are the overflow's own: a queue call is
/// [`InputOverflow::route`], then, for an input handed back, a send that
/// finds room exactly when the channel holds fewer than `capacity` inputs,
/// then [`InputOverflow::after_send`]; the drainer's take is
/// [`InputOverflow::pop`]. So the order law over the model is the order law
/// of the overflow the queue uses.
pub proof fn lemma_pipe_follows_the_overflow<T>(p: PipeModel<T>, x: T, capacity: nat)
    ensures
        ({
            let (o1, handed) = routed(p.overflow, x);
            let (after, res) = queue_step(p, x, capacity);
            match handed {
                None => after.overflow == o1 && res == QueueInputResult::Deferred && after.channel
                    == p.channel,
                Some(y) => {
                    let outcome = if p.channel.len() < capacity {
                        SendOutcome::Sent
                    } else {
                        SendOutcome::Full
                    };
                    let rejected = if p.channel.len() < capacity {
                        None::<T>
                    } else {
                        Some(y)
                    };
                    let (o2, (res2, _)) = after_sent(o1, outcome, rejected);
                    &&& y == x
                    &&& after.overflow == o2
                    &&& res == res2
                    &&& after.channel == (if p.channel.len() < capacity {
                        p.channel.push(x)
                    } else {
                        p.channel
                    })
                },
            }
        }),
        p.in_flight.len() == 0 ==> ({
            let (o3, taken) = popped(p.overflow);
            let q = pipe_step(p, PipeEvent::DrainerPop, capacity);
            &&& q.overflow == o3
            &&& q.in_flight == match taken {
                Some(z) => seq![z],
                None => Seq::<T>::empty(),
            }
        }),
{
    let (o3, taken) = popped(p.overflow);
    let q = pipe_step(p, PipeEvent::DrainerPop, capacity);
    if p.in_flight.len() == 0 && p.overflow.queue.len() == 0 {
        assert(q.in_flight =~= Seq::<T>::empty());
    }
}

} // verus!
