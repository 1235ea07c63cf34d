//! A bounded dispatch queue: many callers submit work, one worker hands it to
//! the wrapped service in submission order once the service is ready.
//!
//! The queue is the worker's decision logic. Its driver owns the service: it
//! reports the service's readiness to [`DispatchQueue::step`] and performs
//! what the step returns. A submission refused as full is retried by the
//! caller once a slot frees (backpressure); nothing is dropped for capacity.
//! An entry whose caller has gone away stays queued and is still dispatched.

use vstd::prelude::*;
use std::collections::VecDeque;

verus! {

/// What the wrapped service answered when asked whether it is ready.
pub enum Readiness {
    Ready,
    NotYet,
    /// Failed for good: the queue is closed.
    Failed,
}

/// The answer to a submission.
pub enum Submit<R> {
    /// Queued behind the entries already waiting.
    Queued,
    /// Every slot is taken: the entry is handed back, to be submitted again once one frees.
    Full(R),
    /// The service failed for good: the entry is handed back with that error.
    Closed(R),
}

/// What the worker does after one step.
pub enum Action<R> {
    /// Nothing to do until an entry arrives or the service becomes ready.
    Wait,
    /// Call the service with this entry, the oldest one waiting.
    Dispatch(R),
    /// The service failed for good: deliver its error to each of these entries,
    /// and to every later submission.
    Fail(Vec<R>),
}

/// The state of a queue: the waiting entries, oldest first, its capacity, and
/// whether it has been closed by a failure of the service.
pub struct QueueView<R> {
    pub pending: Seq<R>,
    pub capacity: nat,
    pub closed: bool,
}

/// An event at the queue: a submission, or one worker step on a readiness answer.
pub enum Event<R> {
    Submit(R),
    Step(Readiness),
}

impl<R> QueueView<R> {
    pub open spec fn wf(self) -> bool {
        &&& self.capacity > 0
        &&& self.pending.len() <= self.capacity
        &&& self.closed ==> self.pending.len() == 0
    }

    /// Whether a submission would be queued.
    pub open spec fn has_room(self) -> bool {
        !self.closed && self.pending.len() < self.capacity
    }

    /// The state after a submission of `item`.
    pub open spec fn after_submit(self, item: R) -> QueueView<R> {
        if self.has_room() {
            QueueView { pending: self.pending.push(item), ..self }
        } else {
            self
        }
    }

    /// Whether a step on this readiness answer dispatches the oldest entry.
    pub open spec fn dispatches(self, readiness: Readiness) -> bool {
        !self.closed && self.pending.len() > 0 && readiness is Ready
    }

    /// Whether a step on this readiness answer closes the queue.
    pub open spec fn fails(self, readiness: Readiness) -> bool {
        !self.closed && self.pending.len() > 0 && readiness is Failed
    }

    /// The state after a worker step on this readiness answer.
    pub open spec fn after_step(self, readiness: Readiness) -> QueueView<R> {
        if self.dispatches(readiness) {
            QueueView { pending: self.pending.drop_first(), ..self }
        } else if self.fails(readiness) {
            QueueView { pending: Seq::empty(), closed: true, ..self }
        } else {
            self
        }
    }
}

/// The end of a run of events, with what it accepted, dispatched and failed, each in order.
pub struct Trace<R> {
    pub end: QueueView<R>,
    pub accepted: Seq<R>,
    pub dispatched: Seq<R>,
    pub failed: Seq<R>,
}

/// The trace of `events` applied in order from `s`.
pub open spec fn run<R>(s: QueueView<R>, events: Seq<Event<R>>) -> Trace<R>
    decreases events.len(),
{
    if events.len() == 0 {
        Trace { end: s, accepted: Seq::empty(), dispatched: Seq::empty(), failed: Seq::empty() }
    } else {
        let rest = events.drop_first();
        match events[0] {
            Event::Submit(item) => {
                let t = run(s.after_submit(item), rest);
                let accepted = if s.has_room() {
                    seq![item] + t.accepted
                } else {
                    t.accepted
                };
                Trace { accepted, ..t }
            },
            Event::Step(readiness) => {
                let t = run(s.after_step(readiness), rest);
                if s.dispatches(readiness) {
                    Trace { dispatched: seq![s.pending[0]] + t.dispatched, ..t }
                } else if s.fails(readiness) {
                    Trace { failed: s.pending + t.failed, ..t }
                } else {
                    t
                }
            },
        }
    }
}

/// Submissions of `items`, one after another.
pub open spec fn submissions<R>(items: Seq<R>) -> Seq<Event<R>> {
    Seq::new(items.len(), |i: int| Event::Submit(items[i]))
}

/// From a closed queue no event is accepted, dispatched or failed, and the
/// state stays as it is.
pub proof fn lemma_closed_serves_nothing<R>(s: QueueView<R>, events: Seq<Event<R>>)
    requires
        s.wf(),
        s.closed,
    ensures
        run(s, events).end == s,
        run(s, events).accepted.len() == 0,
        run(s, events).dispatched.len() == 0,
        run(s, events).failed.len() == 0,
    decreases events.len(),
{
    if events.len() > 0 {
        lemma_closed_serves_nothing(s, events.drop_first());
    }
}

/// Work leaves the queue in the order it was accepted: what was waiting,
/// followed by what was accepted, is exactly what was dispatched, then what
/// got the service's failure, then what still waits. Nothing is lost,
/// duplicated or reordered, for every run of events.
pub proof fn lemma_fifo<R>(s: QueueView<R>, events: Seq<Event<R>>)
    requires
        s.wf(),
    ensures
        run(s, events).end.wf(),
        s.pending + run(s, events).accepted == run(s, events).dispatched + run(s, events).failed
            + run(s, events).end.pending,
    decreases events.len(),
{
    if events.len() > 0 {
        let rest = events.drop_first();
        match events[0] {
            Event::Submit(item) => {
                let s1 = s.after_submit(item);
                lemma_fifo(s1, rest);
                let t = run(s1, rest);
                if s.has_room() {
                    assert(s.pending + (seq![item] + t.accepted) =~= s1.pending + t.accepted);
                }
            },
            Event::Step(readiness) => {
                let s1 = s.after_step(readiness);
                lemma_fifo(s1, rest);
                let t = run(s1, rest);
                if s.dispatches(readiness) {
                    let head = seq![s.pending[0]];
                    assert(s.pending =~= head + s1.pending);
                    assert(s.pending + t.accepted =~= head + (s1.pending + t.accepted));
                    assert(head + (t.dispatched + t.failed + t.end.pending) =~= (head + t.dispatched)
                        + t.failed + t.end.pending);
                } else if s.fails(readiness) {
                    lemma_closed_serves_nothing(s1, rest);
                    assert(s.pending + t.accepted =~= t.dispatched + (s.pending + t.failed)
                        + t.end.pending);
                }
            },
        }
    }
}

/// A run of submissions alone accepts items in order while there is room,
/// then refuses the rest; nothing is dispatched or failed.
pub proof fn lemma_submissions<R>(s: QueueView<R>, items: Seq<R>)
    requires
        s.wf(),
        !s.closed,
    ensures
        ({
            let k = if items.len() <= s.capacity - s.pending.len() {
                items.len() as int
            } else {
                s.capacity - s.pending.len()
            };
            let t = run(s, submissions(items));
            &&& t.accepted == items.take(k)
            &&& t.end == QueueView { pending: s.pending + items.take(k), ..s }
            &&& t.dispatched.len() == 0
            &&& t.failed.len() == 0
        }),
    decreases items.len(),
{
    let events = submissions(items);
    if items.len() == 0 {
        assert(items.take(0) =~= Seq::<R>::empty());
        assert(s.pending + items.take(0) =~= s.pending);
    } else {
        let rest = items.drop_first();
        assert(events.drop_first() =~= submissions(rest));
        let s1 = s.after_submit(items[0]);
        lemma_submissions(s1, rest);
        if s.has_room() {
            let k = if items.len() <= s.capacity - s.pending.len() {
                items.len() as int
            } else {
                s.capacity - s.pending.len()
            };
            assert(seq![items[0]] + rest.take(k - 1) =~= items.take(k));
            assert(s1.pending + rest.take(k - 1) =~= s.pending + items.take(k));
        } else {
            assert(items.take(0) =~= Seq::<R>::empty());
            assert(rest.take(0) =~= Seq::<R>::empty());
            assert(s.pending + items.take(0) =~= s.pending);
            assert(s1.pending + rest.take(0) =~= s.pending);
        }
    }
}

/// Backpressure: with capacity `C`, of `C + 1` submissions made to an empty
/// queue before the worker takes any, the first `C` are queued and the last
/// is refused as full; one dispatch then frees a slot for it.
pub proof fn lemma_backpressure<R>(s: QueueView<R>, items: Seq<R>)
    requires
        s.wf(),
        !s.closed,
        s.pending.len() == 0,
        items.len() == s.capacity + 1,
    ensures
        run(s, submissions(items)).accepted == items.take(s.capacity as int),
        run(s, submissions(items)).end.pending == items.take(s.capacity as int),
        !run(s, submissions(items)).end.has_room(),
        run(s, submissions(items)).end.after_step(Readiness::Ready).has_room(),
{
    lemma_submissions(s, items);
    assert(s.pending + items.take(s.capacity as int) =~= items.take(s.capacity as int));
}

/// A failure of the service is final: the step that sees it hands every
/// waiting entry back with the error, and from then on no event is accepted
/// or reaches the service.
pub proof fn lemma_failure_is_final<R>(s: QueueView<R>, events: Seq<Event<R>>)
    requires
        s.wf(),
        s.fails(Readiness::Failed),
        events.len() > 0,
        events[0] == Event::<R>::Step(Readiness::Failed),
    ensures
        run(s, events).failed == s.pending,
        run(s, events).accepted.len() == 0,
        run(s, events).dispatched.len() == 0,
        run(s, events).end.closed,
{
    let s1 = s.after_step(Readiness::Failed);
    lemma_closed_serves_nothing(s1, events.drop_first());
    assert(s.pending + run(s1, events.drop_first()).failed =~= s.pending);
}

/// The same entry submitted twice is dispatched twice: the queue keeps no
/// result and merges no entries.
pub proof fn lemma_repeat_dispatched_twice<R>(s: QueueView<R>, item: R)
    requires
        s.wf(),
        !s.closed,
        s.pending.len() == 0,
    ensures
        run(
            s,
            seq![
                Event::Submit(item),
                Event::Step(Readiness::Ready),
                Event::Submit(item),
                Event::Step(Readiness::Ready),
            ],
        ).dispatched == seq![item, item],
{
    let e = seq![
        Event::Submit(item),
        Event::Step(Readiness::Ready),
        Event::Submit(item),
        Event::Step(Readiness::Ready),
    ];
    let s1 = s.after_submit(item);
    let s2 = s1.after_step(Readiness::Ready);
    let s3 = s2.after_submit(item);
    let s4 = s3.after_step(Readiness::Ready);
    assert(s1.pending =~= seq![item]);
    assert(s2.pending =~= Seq::<R>::empty());
    assert(s3.pending =~= seq![item]);
    let e1 = e.drop_first();
    let e2 = e1.drop_first();
    let e3 = e2.drop_first();
    let e4 = e3.drop_first();
    assert(e4.len() == 0);
    assert(e1[0] == Event::<R>::Step(Readiness::Ready));
    assert(e2[0] == Event::<R>::Submit(item));
    assert(e3[0] == Event::<R>::Step(Readiness::Ready));
    let t4 = run(s4, e4);
    let t3 = run(s3, e3);
    assert(t3.dispatched =~= seq![item]);
    let t2 = run(s2, e2);
    let t1 = run(s1, e1);
    assert(t1.dispatched =~= seq![item, item]);
}

/// The queue that stands between the callers and the one worker that owns the service.
pub struct DispatchQueue<R> {
    pending: VecDeque<R>,
    capacity: usize,
    closed: bool,
}

impl<R> View for DispatchQueue<R> {
    type V = QueueView<R>;

    closed spec fn view(&self) -> QueueView<R> {
        QueueView { pending: self.pending@, capacity: self.capacity as nat, closed: self.closed }
    }
}

impl<R> DispatchQueue<R> {
    /// An open, empty queue holding at most `capacity` waiting entries.
    pub fn new(capacity: usize) -> (r: DispatchQueue<R>)
        requires
            capacity > 0,
        ensures
            r@ == (QueueView::<R> { pending: Seq::empty(), capacity: capacity as nat, closed: false }),
            r@.wf(),
    {
        let q = DispatchQueue { pending: VecDeque::new(), capacity, closed: false };
        assert(q@.pending =~= Seq::<R>::empty());
        q
    }

    /// The most entries that may wait.
    pub fn capacity(&self) -> (r: usize)
        ensures
            r == self@.capacity,
    {
        self.capacity
    }

    /// The number of entries waiting.
    pub fn len(&self) -> (r: usize)
        ensures
            r == self@.pending.len(),
    {
        self.pending.len()
    }

    /// Whether the service has failed for good.
    pub fn is_closed(&self) -> (r: bool)
        ensures
            r == self@.closed,
    {
        self.closed
    }

    /// Submits one entry: queued behind the others when there is room,
    /// handed back when every slot is taken or the queue is closed.
    pub fn submit(&mut self, item: R) -> (r: Submit<R>)
        requires
            old(self)@.wf(),
        ensures
            final(self)@ == old(self)@.after_submit(item),
            final(self)@.wf(),
            old(self)@.has_room() ==> r is Queued,
            !old(self)@.closed && !old(self)@.has_room() ==> r == Submit::Full(item),
            old(self)@.closed ==> r == Submit::Closed(item),
    {
        if self.closed {
            Submit::Closed(item)
        } else if self.pending.len() >= self.capacity {
            Submit::Full(item)
        } else {
            self.pending.push_back(item);
            Submit::Queued
        }
    }

    /// One worker step on the service's readiness answer. With an entry
    /// waiting, a ready service gets the oldest one; a failed service closes
    /// the queue and every waiting entry is handed back to get the error.
    pub fn step(&mut self, readiness: Readiness) -> (r: Action<R>)
        requires
            old(self)@.wf(),
        ensures
            final(self)@ == old(self)@.after_step(readiness),
            final(self)@.wf(),
            old(self)@.dispatches(readiness) ==> r == Action::Dispatch(old(self)@.pending[0]),
            old(self)@.fails(readiness) ==> (r matches Action::Fail(v) && v@ == old(self)@.pending),
            !old(self)@.dispatches(readiness) && !old(self)@.fails(readiness) ==> r is Wait,
    {
        if self.closed || self.pending.len() == 0 {
            return Action::Wait;
        }
        match readiness {
            Readiness::Ready => {
                match self.pending.pop_front() {
                    Some(item) => {
                        assert(self@.pending =~= old(self)@.pending.drop_first());
                        Action::Dispatch(item)
                    },
                    None => Action::Wait,
                }
            },
            Readiness::NotYet => Action::Wait,
            Readiness::Failed => {
                let mut failed: Vec<R> = Vec::new();
                while self.pending.len() > 0
                    invariant
                        old(self)@.pending == failed@ + self.pending@,
                        self.capacity == old(self).capacity,
                    decreases self.pending@.len(),
                {
                    match self.pending.pop_front() {
                        Some(item) => {
                            failed.push(item);
                        },
                        None => {},
                    }
                }
                assert(failed@ =~= old(self)@.pending);
                assert(self.pending@ =~= Seq::<R>::empty());
                self.closed = true;
                Action::Fail(failed)
            },
        }
    }
}

} // verus!
