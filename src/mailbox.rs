use vstd::prelude::*;

verus! {

/// The unit of mailbox transport: a payload, or the marker that tells the
/// receiving task to finish.
#[derive(Debug, Clone)]
pub enum Message<M> {
    Regular(M),
    Shutdown,
}

/// Capacity of a mailbox made without an explicit one.
pub const MAILBOX_CAPACITY: usize = 100;

/// Why an envelope was not enqueued.
#[derive(Debug, Clone, Copy, PartialEq, Eq, Structural)]
pub enum DeliveryError {
    /// The mailbox holds as many envelopes as its capacity allows.
    Full,
    /// The mailbox no longer accepts envelopes.
    Closed,
}

/// A bounded FIFO queue of envelopes feeding one actor.
pub struct Mailbox<M> {
    items: Vec<Message<M>>,
    capacity: usize,
    closed: bool,
}

impl<M> Mailbox<M> {
    /// The envelopes waiting, oldest first.
    pub closed spec fn queue(&self) -> Seq<Message<M>> {
        self.items@
    }

    pub closed spec fn spec_capacity(&self) -> nat {
        self.capacity as nat
    }

    pub closed spec fn is_closed(&self) -> bool {
        self.closed
    }

    pub open spec fn wf(&self) -> bool {
        &&& 0 < self.spec_capacity()
        &&& self.queue().len() <= self.spec_capacity()
    }

    pub open spec fn is_full(&self) -> bool {
        self.queue().len() >= self.spec_capacity()
    }

    /// An empty, open mailbox that holds at most `capacity` envelopes.
    pub fn new(capacity: usize) -> (r: Self)
        requires
            capacity > 0,
        ensures
            r.wf(),
            r.queue() == Seq::<Message<M>>::empty(),
            r.spec_capacity() == capacity,
            !r.is_closed(),
    {
        Mailbox { items: Vec::new(), capacity, closed: false }
    }

    pub fn capacity(&self) -> (r: usize)
        ensures
            r == self.spec_capacity(),
    {
        self.capacity
    }

    pub fn len(&self) -> (r: usize)
        ensures
            r == self.queue().len(),
    {
        self.items.len()
    }

    pub fn closed(&self) -> (r: bool)
        ensures
            r == self.is_closed(),
    {
        self.closed
    }

    /// Appends `message` at the back, or rejects it: `Closed` once the mailbox
    /// is closed, `Full` when it holds `capacity` envelopes. A rejected
    /// envelope leaves the mailbox as it was.
    pub fn try_send(&mut self, message: Message<M>) -> (r: Result<(), DeliveryError>)
        requires
            old(self).wf(),
        ensures
            final(self).wf(),
            final(self).spec_capacity() == old(self).spec_capacity(),
            final(self).is_closed() == old(self).is_closed(),
            old(self).is_closed() ==> r == Err::<(), DeliveryError>(DeliveryError::Closed),
            !old(self).is_closed() && old(self).is_full() ==> r == Err::<(), DeliveryError>(
                DeliveryError::Full,
            ),
            !old(self).is_closed() && !old(self).is_full() ==> r is Ok,
            r is Ok ==> final(self).queue() == old(self).queue().push(message),
            r is Err ==> *final(self) == *old(self),
    {
        if self.closed {
            Err(DeliveryError::Closed)
        } else if self.items.len() >= self.capacity {
            Err(DeliveryError::Full)
        } else {
            self.items.push(message);
            Ok(())
        }
    }

    /// Takes the oldest envelope, if any.
    pub fn recv(&mut self) -> (r: Option<Message<M>>)
        requires
            old(self).wf(),
        ensures
            final(self).wf(),
            final(self).spec_capacity() == old(self).spec_capacity(),
            final(self).is_closed() == old(self).is_closed(),
            old(self).queue().len() == 0 ==> r is None && final(self).queue() == old(self).queue(),
            old(self).queue().len() > 0 ==> r == Some(old(self).queue()[0]) && final(self).queue()
                == old(self).queue().drop_first(),
    {
        if self.items.len() == 0 {
            None
        } else {
            Some(self.items.remove(0))
        }
    }

    /// Stops accepting envelopes; those already queued stay to be taken.
    pub fn close(&mut self)
        requires
            old(self).wf(),
        ensures
            final(self).wf(),
            final(self).is_closed(),
            final(self).queue() == old(self).queue(),
            final(self).spec_capacity() == old(self).spec_capacity(),
    {
        self.closed = true;
    }
}

/// The queue after `msgs` were sent one by one, as regular envelopes, and all
/// accepted.
pub open spec fn sent_all<M>(q: Seq<Message<M>>, msgs: Seq<M>) -> Seq<Message<M>>
    decreases msgs.len(),
{
    if msgs.len() == 0 {
        q
    } else {
        sent_all(q, msgs.drop_last()).push(Message::Regular(msgs.last()))
    }
}

/// What `n` successive receives take from a queue, in the order taken.
pub open spec fn taken<M>(q: Seq<Message<M>>, n: nat) -> Seq<Message<M>>
    decreases n,
{
    if n == 0 || q.len() == 0 {
        Seq::empty()
    } else {
        seq![q[0]] + taken(q.drop_first(), (n - 1) as nat)
    }
}

pub open spec fn as_regular<M>(msgs: Seq<M>) -> Seq<Message<M>> {
    msgs.map_values(|m: M| Message::Regular(m))
}

proof fn lemma_sent_all<M>(q: Seq<Message<M>>, msgs: Seq<M>)
    ensures
        sent_all(q, msgs) == q + as_regular(msgs),
    decreases msgs.len(),
{
    if msgs.len() > 0 {
        lemma_sent_all(q, msgs.drop_last());
        assert(as_regular(msgs) == as_regular(msgs.drop_last()).push(Message::Regular(msgs.last())));
        assert(sent_all(q, msgs) == q + as_regular(msgs));
    } else {
        assert(q + as_regular(msgs) == q);
    }
}

proof fn lemma_taken_all<M>(q: Seq<Message<M>>)
    ensures
        taken(q, q.len()) == q,
    decreases q.len(),
{
    if q.len() > 0 {
        lemma_taken_all(q.drop_first());
        assert(seq![q[0]] + q.drop_first() == q);
    }
}

/// Envelopes leave a mailbox in the order they were sent: when a caller sends
/// `msgs` to a mailbox that already holds `q` and every send is accepted, the
/// receives that follow take `q` first and then exactly `msgs`, in order.
pub proof fn fifo_per_sender<M>(q: Seq<Message<M>>, msgs: Seq<M>)
    ensures
        taken(sent_all(q, msgs), q.len() + msgs.len()) == q + as_regular(msgs),
        taken(sent_all(q, msgs), q.len() + msgs.len()).subrange(
            q.len() as int,
            (q.len() + msgs.len()) as int,
        ) == as_regular(msgs),
{
    lemma_sent_all(q, msgs);
    let all = q + as_regular(msgs);
    assert(all.len() == q.len() + msgs.len());
    lemma_taken_all(all);
    assert(all.subrange(q.len() as int, (q.len() + msgs.len()) as int) == as_regular(msgs));
}

/// A run of accepted sends builds `sent_all`: when each queue in `qs` is the
/// one before it with the next of `msgs` appended as a regular envelope (what
/// `try_send` and `ActorSystem::send_message` guarantee on `Ok`), the last
/// queue is `sent_all(qs[0], msgs)`.
pub proof fn accepted_sends<M>(msgs: Seq<M>, qs: Seq<Seq<Message<M>>>)
    requires
        qs.len() == msgs.len() + 1,
        forall|k: int|
            0 <= k < msgs.len() ==> #[trigger] qs[k + 1] == qs[k].push(Message::Regular(msgs[k])),
    ensures
        qs[msgs.len() as int] == sent_all(qs[0], msgs),
    decreases msgs.len(),
{
    if msgs.len() > 0 {
        let n = msgs.len() - 1;
        accepted_sends(msgs.drop_last(), qs.subrange(0, n + 1));
        assert(qs[n + 1] == qs[n].push(Message::Regular(msgs[n])));
    }
}

/// A run of receives takes `taken`: when each receive takes the front of a
/// non-empty queue and leaves the rest (what `recv` and
/// `ActorSystem::next_envelope` guarantee), the envelopes taken, in order,
/// are `taken(qs[0], outs.len())`.
pub proof fn receives_in_order<M>(outs: Seq<Message<M>>, qs: Seq<Seq<Message<M>>>)
    requires
        qs.len() == outs.len() + 1,
        forall|k: int| 0 <= k < outs.len() ==> #[trigger] receive_step(qs[k], outs[k], qs[k + 1]),
    ensures
        outs == taken(qs[0], outs.len()),
    decreases outs.len(),
{
    if outs.len() > 0 {
        let rest = outs.drop_first();
        let qrest = qs.drop_first();
        assert(rest.len() == outs.len() - 1);
        assert(qrest.len() == qs.len() - 1);
        assert forall|k: int| 0 <= k < rest.len() implies #[trigger] receive_step(
            qrest[k],
            rest[k],
            qrest[k + 1],
        ) by {
            assert(receive_step(qs[k + 1], outs[k + 1], qs[(k + 1) + 1]));
            assert(rest[k] == outs[k + 1]);
            assert(qrest[k] == qs[k + 1]);
            assert(qrest[k + 1] == qs[k + 2]);
        }
        receives_in_order(rest, qrest);
        assert(receive_step(qs[0], outs[0], qs[1]));
        assert(outs == seq![outs[0]] + rest);
    }
}

/// One receive: from a non-empty queue `q` it takes `out`, the front, and
/// leaves `rest`.
pub open spec fn receive_step<M>(q: Seq<Message<M>>, out: Message<M>, rest: Seq<Message<M>>) -> bool {
    &&& q.len() > 0
    &&& out == q[0]
    &&& rest == q.drop_first()
}

/// Where an actor's task loop stands.
#[derive(Debug, Clone, Copy, PartialEq, Eq, Structural)]
pub enum TaskPhase {
    /// Taking envelopes and handing them to the actor.
    Running,
    /// A shutdown was taken or the mailbox closed: cleanup is under way.
    Draining,
    /// Cleanup finished; the task has ended.
    Terminated,
}

/// What the task loop observed.
#[derive(Debug, Clone, Copy, PartialEq, Eq, Structural)]
pub enum TaskEvent {
    /// A regular envelope was taken from the mailbox.
    Regular,
    /// A shutdown envelope was taken from the mailbox.
    Shutdown,
    /// The mailbox is closed and empty.
    Closed,
    /// The actor's cleanup returned.
    CleanupDone,
}

/// What the task loop does next.
#[derive(Debug, Clone, Copy, PartialEq, Eq, Structural)]
pub enum TaskAction {
    /// Hand the envelope to the actor's `receive` and keep going.
    Deliver,
    /// Hand the shutdown envelope to `receive`, then run the actor's cleanup.
    DeliverThenCleanup,
    /// Run the actor's cleanup.
    Cleanup,
    /// Drop the envelope unprocessed.
    Discard,
    /// Leave the loop.
    Exit,
    /// Nothing to do.
    Idle,
}

pub open spec fn next_phase(phase: TaskPhase, event: TaskEvent) -> TaskPhase {
    match (phase, event) {
        (TaskPhase::Running, TaskEvent::Shutdown) => TaskPhase::Draining,
        (TaskPhase::Running, TaskEvent::Closed) => TaskPhase::Draining,
        (TaskPhase::Draining, TaskEvent::CleanupDone) => TaskPhase::Terminated,
        _ => phase,
    }
}

pub open spec fn next_action(phase: TaskPhase, event: TaskEvent) -> TaskAction {
    match (phase, event) {
        (TaskPhase::Running, TaskEvent::Regular) => TaskAction::Deliver,
        (TaskPhase::Running, TaskEvent::Shutdown) => TaskAction::DeliverThenCleanup,
        (TaskPhase::Running, TaskEvent::Closed) => TaskAction::Cleanup,
        (TaskPhase::Running, TaskEvent::CleanupDone) => TaskAction::Idle,
        (TaskPhase::Draining, TaskEvent::CleanupDone) => TaskAction::Exit,
        (TaskPhase::Terminated, TaskEvent::CleanupDone) => TaskAction::Exit,
        (_, TaskEvent::Regular) => TaskAction::Discard,
        (_, TaskEvent::Shutdown) => TaskAction::Discard,
        _ => TaskAction::Idle,
    }
}

/// One decision of the task loop: regular envelopes are delivered while
/// running; a shutdown envelope is delivered and starts cleanup; a closed,
/// empty mailbox starts cleanup; once cleanup has started nothing more is
/// delivered, and the end of cleanup ends the loop.
pub fn task_step(phase: TaskPhase, event: TaskEvent) -> (r: (TaskPhase, TaskAction))
    ensures
        r.0 == next_phase(phase, event),
        r.1 == next_action(phase, event),
{
    match (phase, event) {
        (TaskPhase::Running, TaskEvent::Regular) => (TaskPhase::Running, TaskAction::Deliver),
        (TaskPhase::Running, TaskEvent::Shutdown) => (
            TaskPhase::Draining,
            TaskAction::DeliverThenCleanup,
        ),
        (TaskPhase::Running, TaskEvent::Closed) => (TaskPhase::Draining, TaskAction::Cleanup),
        (TaskPhase::Running, TaskEvent::CleanupDone) => (TaskPhase::Running, TaskAction::Idle),
        (TaskPhase::Draining, TaskEvent::CleanupDone) => (TaskPhase::Terminated, TaskAction::Exit),
        (TaskPhase::Terminated, TaskEvent::CleanupDone) => (
            TaskPhase::Terminated,
            TaskAction::Exit,
        ),
        (_, TaskEvent::Regular) => (phase, TaskAction::Discard),
        (_, TaskEvent::Shutdown) => (phase, TaskAction::Discard),
        _ => (phase, TaskAction::Idle),
    }
}

/// The phase reached after the events, in order.
pub open spec fn phase_after(phase: TaskPhase, events: Seq<TaskEvent>) -> TaskPhase
    decreases events.len(),
{
    if events.len() == 0 {
        phase
    } else {
        next_phase(phase_after(phase, events.drop_last()), events.last())
    }
}

/// The actions decided for the events, in order.
pub open spec fn actions_for(phase: TaskPhase, events: Seq<TaskEvent>) -> Seq<TaskAction>
    decreases events.len(),
{
    if events.len() == 0 {
        Seq::empty()
    } else {
        actions_for(phase, events.drop_last()).push(
            next_action(phase_after(phase, events.drop_last()), events.last()),
        )
    }
}

pub open spec fn delivers(a: TaskAction) -> bool {
    a == TaskAction::Deliver || a == TaskAction::DeliverThenCleanup
}

pub open spec fn starts_cleanup(a: TaskAction) -> bool {
    a == TaskAction::Cleanup || a == TaskAction::DeliverThenCleanup
}

/// How many of the actions run the actor's cleanup.
pub open spec fn cleanup_count(actions: Seq<TaskAction>) -> nat
    decreases actions.len(),
{
    if actions.len() == 0 {
        0
    } else {
        cleanup_count(actions.drop_last()) + if starts_cleanup(actions.last()) {
            1nat
        } else {
            0nat
        }
    }
}

proof fn lemma_actions_len(phase: TaskPhase, events: Seq<TaskEvent>)
    ensures
        actions_for(phase, events).len() == events.len(),
    decreases events.len(),
{
    if events.len() > 0 {
        lemma_actions_len(phase, events.drop_last());
    }
}

/// The action at `i` is decided in the phase reached after the first `i` events.
proof fn lemma_action_at(phase: TaskPhase, events: Seq<TaskEvent>, i: int)
    requires
        0 <= i < events.len(),
    ensures
        actions_for(phase, events).len() == events.len(),
        actions_for(phase, events)[i] == next_action(
            phase_after(phase, events.subrange(0, i)),
            events[i],
        ),
    decreases events.len(),
{
    lemma_actions_len(phase, events);
    let init = events.drop_last();
    lemma_actions_len(phase, init);
    if i < events.len() - 1 {
        lemma_action_at(phase, init, i);
        assert(init.subrange(0, i) == events.subrange(0, i));
    } else {
        assert(init == events.subrange(0, i));
    }
}

/// Once the loop has left `Running` it never returns there.
proof fn lemma_no_return(phase: TaskPhase, events: Seq<TaskEvent>)
    requires
        phase != TaskPhase::Running,
    ensures
        phase_after(phase, events) != TaskPhase::Running,
    decreases events.len(),
{
    if events.len() > 0 {
        lemma_no_return(phase, events.drop_last());
    }
}

proof fn lemma_phase_split(phase: TaskPhase, a: Seq<TaskEvent>, b: Seq<TaskEvent>)
    ensures
        phase_after(phase, a + b) == phase_after(phase_after(phase, a), b),
    decreases b.len(),
{
    if b.len() > 0 {
        lemma_phase_split(phase, a, b.drop_last());
        assert((a + b).drop_last() == a + b.drop_last());
    } else {
        assert(a + b == a);
    }
}

/// Cleanup runs at most once, and exactly once when the loop, starting from
/// `Running`, has taken a shutdown envelope or seen its mailbox closed.
proof fn lemma_cleanup_count(events: Seq<TaskEvent>)
    ensures
        cleanup_count(actions_for(TaskPhase::Running, events)) == if phase_after(
            TaskPhase::Running,
            events,
        ) == TaskPhase::Running {
            0nat
        } else {
            1nat
        },
    decreases events.len(),
{
    if events.len() > 0 {
        let init = events.drop_last();
        lemma_cleanup_count(init);
        lemma_actions_len(TaskPhase::Running, events);
        lemma_actions_len(TaskPhase::Running, init);
        let acts = actions_for(TaskPhase::Running, events);
        assert(acts.drop_last() == actions_for(TaskPhase::Running, init));
    }
}

/// After a shutdown envelope has been taken, cleanup runs exactly once over
/// the whole run, and no envelope taken after it is delivered to the actor:
/// for every run of the task loop from `Running`, if the event at `i` is a
/// shutdown, no action after `i` delivers and exactly one action of the run
/// starts cleanup.
pub proof fn shutdown_is_terminal(events: Seq<TaskEvent>, i: int)
    requires
        0 <= i < events.len(),
        events[i] == TaskEvent::Shutdown,
    ensures
        forall|j: int|
            i < j < events.len() ==> !delivers(#[trigger] actions_for(TaskPhase::Running, events)[j]),
        cleanup_count(actions_for(TaskPhase::Running, events)) == 1,
{
    let before = events.subrange(0, i);
    let upto = events.subrange(0, i + 1);
    assert(upto.drop_last() == before);
    let p = phase_after(TaskPhase::Running, upto);
    assert(p != TaskPhase::Running);
    assert forall|j: int| i < j < events.len() implies !delivers(
        #[trigger] actions_for(TaskPhase::Running, events)[j],
    ) by {
        lemma_action_at(TaskPhase::Running, events, j);
        let mid = events.subrange(i + 1, j);
        assert(upto + mid == events.subrange(0, j));
        lemma_phase_split(TaskPhase::Running, upto, mid);
        lemma_no_return(p, mid);
    }
    let rest = events.subrange(i + 1, events.len() as int);
    assert(upto + rest == events);
    lemma_phase_split(TaskPhase::Running, upto, rest);
    lemma_no_return(p, rest);
    lemma_cleanup_count(events);
}

} // verus!
