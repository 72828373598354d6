//! The actor registry: names routed to bounded mailboxes, message delivery by
//! name, system-wide shutdown, and the per-envelope work of an actor's task.

use vstd::prelude::*;

pub use crate::mailbox::{DeliveryError, Mailbox, Message, MAILBOX_CAPACITY};
use crate::mailbox::{delivers, next_action, next_phase, task_step, TaskAction, TaskEvent, TaskPhase};

verus! {

/// What any schedulable unit implements: consume one envelope at a time, and
/// run a cleanup routine once its task loop ends.
pub trait Actor {
    /// The payload of the regular envelopes this actor takes.
    type Message;

    /// What `receive` reports on failure.
    type Error;

    /// Processes one envelope.
    fn receive(&mut self, message: Message<Self::Message>) -> Result<(), Self::Error>;

    /// Releases what the actor holds; called once, when its task loop ends.
    fn cleanup(&mut self);
}

/// Why `send_message` did not enqueue the message.
#[derive(Debug, Clone, Copy, PartialEq, Eq, Structural)]
pub enum SendError {
    /// No actor is registered under the name.
    NotFound,
    /// The actor's mailbox is at capacity.
    Full,
    /// The actor's mailbox no longer accepts envelopes.
    Closed,
}

/// What a producer does when a mailbox is at capacity.
#[derive(Debug, Clone, Copy, PartialEq, Eq, Structural)]
pub enum Backpressure {
    /// Wait until the actor has taken an envelope, then send again.
    Block,
    /// Give the `Full` error back to the caller.
    Reject,
}

/// What a producer does after one attempt to send.
#[derive(Debug, Clone, Copy, PartialEq, Eq, Structural)]
pub enum SendDecision {
    /// The message is in the mailbox.
    Delivered,
    /// Wait for room in the mailbox, then try the same send again.
    WaitAndRetry,
    /// Report this error to the caller.
    Fail(SendError),
}

pub open spec fn spec_send_decision(policy: Backpressure, attempt: Result<(), SendError>) -> SendDecision {
    match attempt {
        Ok(()) => SendDecision::Delivered,
        Err(SendError::Full) => if policy == Backpressure::Block {
            SendDecision::WaitAndRetry
        } else {
            SendDecision::Fail(SendError::Full)
        },
        Err(e) => SendDecision::Fail(e),
    }
}

/// The decision after an attempt to send under `policy`: a full mailbox makes
/// a blocking producer wait and retry and a rejecting one fail; any other
/// outcome is final.
pub fn send_decision(policy: Backpressure, attempt: Result<(), SendError>) -> (r: SendDecision)
    ensures
        r == spec_send_decision(policy, attempt),
{
    match attempt {
        Ok(()) => SendDecision::Delivered,
        Err(SendError::Full) => match policy {
            Backpressure::Block => SendDecision::WaitAndRetry,
            Backpressure::Reject => SendDecision::Fail(SendError::Full),
        },
        Err(e) => SendDecision::Fail(e),
    }
}

/// Handle `j` of `sys` is full and reachable under the blocking policy.
pub open spec fn shutdown_pending<M>(sys: ActorSystem<M>, j: int) -> bool {
    &&& is_current(sys.names(), j)
    &&& !sys.mailboxes()[j].is_closed()
    &&& sys.mailboxes()[j].is_full()
    &&& sys.spec_policy() == Backpressure::Block
}

/// Handle `j` of `sys` is reachable and closed, or full under the rejecting
/// policy.
pub open spec fn shutdown_failed<M>(sys: ActorSystem<M>, j: int) -> bool {
    &&& is_current(sys.names(), j)
    &&& (sys.mailboxes()[j].is_closed() || (sys.mailboxes()[j].is_full() && sys.spec_policy()
        == Backpressure::Reject))
}

/// What `shutdown` could not deliver, by mailbox handle.
pub struct ShutdownReport {
    /// Full mailboxes under the blocking policy: retry these.
    pub pending: Vec<usize>,
    /// Closed mailboxes, and full ones under the rejecting policy.
    pub failed: Vec<usize>,
}

/// The handles below `n` that satisfy `cond`, in increasing order.
pub open spec fn collected(cond: spec_fn(int) -> bool, n: int) -> Seq<usize>
    decreases n,
{
    if n <= 0 {
        Seq::empty()
    } else if cond(n - 1) {
        collected(cond, n - 1).push((n - 1) as usize)
    } else {
        collected(cond, n - 1)
    }
}

proof fn lemma_collected(cond: spec_fn(int) -> bool, n: int)
    requires
        0 <= n <= usize::MAX,
    ensures
        forall|k: int| 0 <= k < collected(cond, n).len() ==> collected(cond, n)[k] < n,
        forall|j: int|
            0 <= j < n ==> (#[trigger] collected(cond, n).contains(j as usize) <==> cond(j)),
    decreases n,
{
    if n > 0 {
        lemma_collected(cond, n - 1);
        let s = collected(cond, n - 1);
        let t = collected(cond, n);
        assert forall|j: int| 0 <= j < n implies (t.contains(j as usize) <==> #[trigger] cond(j)) by {
            if cond(n - 1) {
                assert(t[s.len() as int] == (n - 1) as usize);
                if j < n - 1 {
                    if t.contains(j as usize) {
                        let k = choose|k: int| 0 <= k < t.len() && t[k] == j as usize;
                        assert(k < s.len());
                        assert(s[k] == j as usize);
                    }
                    if s.contains(j as usize) {
                        let k = choose|k: int| 0 <= k < s.len() && s[k] == j as usize;
                        assert(t[k] == j as usize);
                    }
                }
            } else if j == n - 1 {
                if s.contains(j as usize) {
                    let k = choose|k: int| 0 <= k < s.len() && s[k] == j as usize;
                }
            }
        }
    }
}

struct Route<M> {
    name: String,
    mailbox: Mailbox<M>,
}

/// Registered actors, each a name and a mailbox. Registering a name again
/// routes it to the new mailbox; the earlier one stays, unreachable by name.
pub struct ActorSystem<M> {
    routes: Vec<Route<M>>,
    capacity: usize,
    policy: Backpressure,
}

/// `i` is the newest registration of `name`, the one messages to `name` reach.
pub open spec fn is_route(names: Seq<Seq<char>>, name: Seq<char>, i: int) -> bool {
    &&& 0 <= i < names.len()
    &&& names[i] == name
    &&& forall|j: int| i < j < names.len() ==> names[j] != name
}

pub open spec fn is_registered(names: Seq<Seq<char>>, name: Seq<char>) -> bool {
    exists|i: int| 0 <= i < names.len() && names[i] == name
}

/// Registration `i` is reachable by its name: no later one shadows it.
pub open spec fn is_current(names: Seq<Seq<char>>, i: int) -> bool {
    is_route(names, names[i], i)
}

impl<M> ActorSystem<M> {
    /// The registered names, in order of registration.
    pub closed spec fn names(&self) -> Seq<Seq<char>> {
        self.routes@.map_values(|r: Route<M>| r.name@)
    }

    /// The mailboxes, in order of registration.
    pub closed spec fn mailboxes(&self) -> Seq<Mailbox<M>> {
        self.routes@.map_values(|r: Route<M>| r.mailbox)
    }

    pub closed spec fn spec_capacity(&self) -> nat {
        self.capacity as nat
    }

    pub closed spec fn spec_policy(&self) -> Backpressure {
        self.policy
    }

    pub open spec fn wf(&self) -> bool {
        &&& self.names().len() == self.mailboxes().len()
        &&& 0 < self.spec_capacity()
        &&& forall|i: int|
            0 <= i < self.mailboxes().len() ==> #[trigger] self.mailboxes()[i].wf()
                && self.mailboxes()[i].spec_capacity() == self.spec_capacity()
    }

    /// An empty registry whose mailboxes hold `MAILBOX_CAPACITY` envelopes
    /// and whose producers wait when one is full.
    pub fn new() -> (r: Self)
        ensures
            r.wf(),
            r.names() == Seq::<Seq<char>>::empty(),
            r.spec_capacity() == MAILBOX_CAPACITY,
            r.spec_policy() == Backpressure::Block,
    {
        let r = ActorSystem { routes: Vec::new(), capacity: MAILBOX_CAPACITY, policy: Backpressure::Block };
        assert(r.names() =~= Seq::<Seq<char>>::empty());
        r
    }

    /// An empty registry with the given mailbox capacity and policy.
    pub fn with_config(capacity: usize, policy: Backpressure) -> (r: Self)
        requires
            capacity > 0,
        ensures
            r.wf(),
            r.names() == Seq::<Seq<char>>::empty(),
            r.spec_capacity() == capacity,
            r.spec_policy() == policy,
    {
        let r = ActorSystem { routes: Vec::new(), capacity, policy };
        assert(r.names() =~= Seq::<Seq<char>>::empty());
        r
    }

    pub fn capacity(&self) -> (r: usize)
        ensures
            r == self.spec_capacity(),
    {
        self.capacity
    }

    pub fn policy(&self) -> (r: Backpressure)
        ensures
            r == self.spec_policy(),
    {
        self.policy
    }

    /// How many registrations were made; each one's handle is below this.
    pub fn actor_count(&self) -> (r: usize)
        requires
            self.wf(),
        ensures
            r == self.names().len(),
    {
        self.routes.len()
    }

    /// Registers `name` with a new, empty mailbox and returns its handle, by
    /// which the actor's task takes its envelopes. Messages to `name` reach
    /// this mailbox from now on.
    pub fn add_actor(&mut self, name: String) -> (r: usize)
        requires
            old(self).wf(),
        ensures
            final(self).wf(),
            r == old(self).names().len(),
            final(self).names() == old(self).names().push(name@),
            final(self).mailboxes().len() == old(self).mailboxes().len() + 1,
            forall|i: int|
                0 <= i < old(self).mailboxes().len() ==> final(self).mailboxes()[i]
                    == old(self).mailboxes()[i],
            final(self).mailboxes()[r as int].queue() == Seq::<Message<M>>::empty(),
            final(self).mailboxes()[r as int].spec_capacity() == old(self).spec_capacity(),
            !final(self).mailboxes()[r as int].is_closed(),
            is_route(final(self).names(), name@, r as int),
            final(self).spec_capacity() == old(self).spec_capacity(),
            final(self).spec_policy() == old(self).spec_policy(),
    {
        let ghost name_view = name@;
        let mailbox = Mailbox::new(self.capacity);
        self.routes.push(Route { name, mailbox });
        assert(self.names() =~= old(self).names().push(name_view));
        assert(forall|i: int|
            0 <= i < old(self).mailboxes().len() ==> self.mailboxes()[i] == old(self).mailboxes()[i]);
        assert(self.mailboxes()[old(self).mailboxes().len() as int] == mailbox);
        self.routes.len() - 1
    }

    /// The handle that messages to `name` reach: its newest registration.
    pub fn lookup(&self, name: &str) -> (r: Option<usize>)
        requires
            self.wf(),
        ensures
            match r {
                Some(i) => is_route(self.names(), name@, i as int),
                None => !is_registered(self.names(), name@),
            },
    {
        let mut i: usize = self.routes.len();
        while i > 0
            invariant
                i <= self.routes.len(),
                self.names().len() == self.routes.len(),
                forall|j: int| i <= j < self.names().len() ==> self.names()[j] != name@,
            decreases i,
        {
            let candidate = self.routes[i - 1].name.as_str();
            proof {
                assert(self.names()[i - 1] == self.routes@[i - 1].name@);
            }
            if candidate.to_owned() == name.to_owned() {
                return Some(i - 1);
            }
            i = i - 1;
        }
        None
    }

    /// Sends `message` as a regular envelope to the actor registered under
    /// `actor_name`. An unknown name gives `NotFound` and changes nothing; a
    /// full or closed mailbox gives `Full` or `Closed` and changes nothing;
    /// otherwise the envelope is appended to that actor's mailbox and no other
    /// mailbox changes.
    pub fn send_message(&mut self, actor_name: &str, message: M) -> (r: Result<(), SendError>)
        requires
            old(self).wf(),
        ensures
            final(self).wf(),
            final(self).names() == old(self).names(),
            final(self).spec_capacity() == old(self).spec_capacity(),
            final(self).spec_policy() == old(self).spec_policy(),
            !is_registered(old(self).names(), actor_name@) ==> r == Err::<(), SendError>(
                SendError::NotFound,
            ),
            r is Err ==> final(self).mailboxes() == old(self).mailboxes(),
            forall|i: int|
                #![trigger is_route(old(self).names(), actor_name@, i)]
                is_route(old(self).names(), actor_name@, i) ==> {
                    let b = old(self).mailboxes()[i];
                    &&& b.is_closed() ==> r == Err::<(), SendError>(SendError::Closed)
                    &&& !b.is_closed() && b.is_full() ==> r == Err::<(), SendError>(
                        SendError::Full,
                    )
                    &&& !b.is_closed() && !b.is_full() ==> r is Ok
                    &&& r is Ok ==> final(self).mailboxes() == old(self).mailboxes().update(
                        i,
                        final(self).mailboxes()[i],
                    ) && final(self).mailboxes()[i].queue() == b.queue().push(
                        Message::Regular(message),
                    ) && final(self).mailboxes()[i].spec_capacity() == b.spec_capacity()
                        && final(self).mailboxes()[i].is_closed() == b.is_closed()
                },
    {
        match self.lookup(actor_name) {
            None => Err(SendError::NotFound),
            Some(i) => {
                assert(self.mailboxes()[i as int] == self.routes@[i as int].mailbox);
                let sent = self.deliver(i, Message::Regular(message));
                match sent {
                    Ok(()) => Ok(()),
                    Err(DeliveryError::Full) => Err(SendError::Full),
                    Err(DeliveryError::Closed) => Err(SendError::Closed),
                }
            },
        }
    }

    /// Offers `message` to the mailbox with handle `i`.
    fn deliver(&mut self, i: usize, message: Message<M>) -> (r: Result<(), DeliveryError>)
        requires
            old(self).wf(),
            i < old(self).names().len(),
        ensures
            final(self).wf(),
            final(self).names() == old(self).names(),
            final(self).spec_capacity() == old(self).spec_capacity(),
            final(self).spec_policy() == old(self).spec_policy(),
            final(self).mailboxes() == old(self).mailboxes().update(
                i as int,
                final(self).mailboxes()[i as int],
            ),
            ({
                let b = old(self).mailboxes()[i as int];
                let a = final(self).mailboxes()[i as int];
                &&& a.spec_capacity() == b.spec_capacity()
                &&& a.is_closed() == b.is_closed()
                &&& b.is_closed() ==> r == Err::<(), DeliveryError>(DeliveryError::Closed)
                &&& !b.is_closed() && b.is_full() ==> r == Err::<(), DeliveryError>(
                    DeliveryError::Full,
                )
                &&& !b.is_closed() && !b.is_full() ==> r is Ok
                &&& r is Ok ==> a.queue() == b.queue().push(message)
                &&& r is Err ==> a == b
            }),
    {
        assert(self.mailboxes()[i as int] == self.routes@[i as int].mailbox);
        assert(self.mailboxes()[i as int].wf());
        let r = self.routes[i].mailbox.try_send(message);
        proof {
            assert(self.names() =~= old(self).names());
            assert(self.mailboxes() =~= old(self).mailboxes().update(
                i as int,
                self.mailboxes()[i as int],
            ));
            assert(self.mailboxes()[i as int] == self.routes@[i as int].mailbox);
        }
        r
    }

    /// Whether no later registration shadows registration `i`.
    fn is_newest(&self, i: usize) -> (r: bool)
        requires
            self.wf(),
            i < self.names().len(),
        ensures
            r == is_current(self.names(), i as int),
    {
        let name = self.routes[i].name.as_str().to_owned();
        proof {
            assert(name@ == self.names()[i as int]);
        }
        let n = self.routes.len();
        let mut j: usize = i + 1;
        while j < n
            invariant
                n == self.routes.len(),
                i < j <= self.routes.len(),
                self.names().len() == self.routes.len(),
                name@ == self.names()[i as int],
                forall|k: int| i < k < j ==> self.names()[k] != name@,
            decreases n - j,
        {
            let other = self.routes[j].name.as_str().to_owned();
            proof {
                assert(other@ == self.names()[j as int]);
            }
            if other == name {
                return false;
            }
            j = j + 1;
        }
        true
    }

    /// Sends a shutdown envelope to every actor reachable by name, without
    /// waiting on any mailbox: one that cannot take it now does not hold up
    /// the others. A full mailbox is `pending` under the blocking policy,
    /// for the caller to retry with `deliver_shutdown` once there is room,
    /// and `failed` under the rejecting policy; a closed one is `failed`.
    /// A mailbox that did not take the envelope is left as it was.
    pub fn shutdown(&mut self) -> (r: ShutdownReport)
        requires
            old(self).wf(),
        ensures
            final(self).wf(),
            final(self).names() == old(self).names(),
            final(self).spec_capacity() == old(self).spec_capacity(),
            final(self).spec_policy() == old(self).spec_policy(),
            final(self).mailboxes().len() == old(self).mailboxes().len(),
            forall|i: int|
                0 <= i < old(self).mailboxes().len() ==> {
                    let b = #[trigger] old(self).mailboxes()[i];
                    let a = final(self).mailboxes()[i];
                    let cur = is_current(old(self).names(), i);
                    let accepts = !b.is_closed() && !b.is_full();
                    &&& cur && accepts ==> a.queue() == b.queue().push(Message::Shutdown)
                        && a.spec_capacity() == b.spec_capacity() && a.is_closed() == b.is_closed()
                    &&& !(cur && accepts) ==> a == b
                    &&& r.pending@.contains(i as usize) <==> shutdown_pending(*old(self), i)
                    &&& r.failed@.contains(i as usize) <==> shutdown_failed(*old(self), i)
                },
            forall|k: int| 0 <= k < r.pending@.len() ==> r.pending@[k] < old(self).mailboxes().len(),
            forall|k: int| 0 <= k < r.failed@.len() ==> r.failed@[k] < old(self).mailboxes().len(),
    {
        let mut pending: Vec<usize> = Vec::new();
        let mut failed: Vec<usize> = Vec::new();
        let block = match self.policy {
            Backpressure::Block => true,
            Backpressure::Reject => false,
        };
        let mut i: usize = 0;
        let n = self.routes.len();
        while i < n
            invariant
                self.wf(),
                n == self.names().len(),
                0 <= i <= n,
                block == (old(self).spec_policy() == Backpressure::Block),
                self.names() == old(self).names(),
                self.spec_capacity() == old(self).spec_capacity(),
                self.spec_policy() == old(self).spec_policy(),
                self.mailboxes().len() == old(self).mailboxes().len(),
                forall|j: int|
                    0 <= j < i ==> is_current(old(self).names(), j) && !old(self).mailboxes()[j].is_closed()
                        && !old(self).mailboxes()[j].is_full() ==> (#[trigger] self.mailboxes()[j]).queue()
                        == old(self).mailboxes()[j].queue().push(Message::Shutdown),
                forall|j: int|
                    0 <= j < i ==> is_current(old(self).names(), j) && !old(self).mailboxes()[j].is_closed()
                        && !old(self).mailboxes()[j].is_full() ==> (#[trigger] self.mailboxes()[j]).spec_capacity()
                        == old(self).mailboxes()[j].spec_capacity() && self.mailboxes()[j].is_closed()
                        == old(self).mailboxes()[j].is_closed(),
                forall|j: int|
                    0 <= j < i ==> !(is_current(old(self).names(), j) && !old(self).mailboxes()[j].is_closed()
                        && !old(self).mailboxes()[j].is_full()) ==> #[trigger] self.mailboxes()[j]
                        == old(self).mailboxes()[j],
                pending@ == collected(|j: int| shutdown_pending(*old(self), j), i as int),
                failed@ == collected(|j: int| shutdown_failed(*old(self), j), i as int),
                forall|j: int| i <= j < n ==> #[trigger] self.mailboxes()[j] == old(self).mailboxes()[j],
            decreases n - i,
        {
            let ghost before = *self;
            if self.is_newest(i) {
                assert(before.mailboxes()[i as int] == old(self).mailboxes()[i as int]);
                let sent = self.deliver(i, Message::Shutdown);
                match sent {
                    Ok(()) => {},
                    Err(DeliveryError::Full) => {
                        if block {
                            pending.push(i);
                        } else {
                            failed.push(i);
                        }
                    },
                    Err(DeliveryError::Closed) => {
                        failed.push(i);
                    },
                }
                proof {
                    assert forall|j: int| 0 <= j < n && j != i implies #[trigger] self.mailboxes()[j]
                        == before.mailboxes()[j] by {}
                }
            }
            proof {
                assert(pending@ =~= collected(|j: int| shutdown_pending(*old(self), j), i + 1));
                assert(failed@ =~= collected(|j: int| shutdown_failed(*old(self), j), i + 1));
                let b = old(self).mailboxes()[i as int];
                let a = self.mailboxes()[i as int];
                let cur = is_current(old(self).names(), i as int);
                let accepts = !b.is_closed() && !b.is_full();
                assert(cur && accepts ==> a.queue() == b.queue().push(Message::Shutdown)
                    && a.spec_capacity() == b.spec_capacity() && a.is_closed() == b.is_closed());
                assert(!(cur && accepts) ==> a == b);
                assert forall|j: int|
                    #![trigger self.mailboxes()[j]]
                    0 <= j < i implies {
                    let b = old(self).mailboxes()[j];
                    let a = self.mailboxes()[j];
                    let cur = is_current(old(self).names(), j);
                    let accepts = !b.is_closed() && !b.is_full();
                    &&& cur && accepts ==> a.queue() == b.queue().push(Message::Shutdown)
                        && a.spec_capacity() == b.spec_capacity() && a.is_closed() == b.is_closed()
                    &&& !(cur && accepts) ==> a == b
                } by {
                    assert(self.mailboxes()[j] == before.mailboxes()[j]);
                }
            }
            i = i + 1;
        }
        proof {
            lemma_collected(|j: int| shutdown_pending(*old(self), j), n as int);
            lemma_collected(|j: int| shutdown_failed(*old(self), j), n as int);
        }
        ShutdownReport { pending, failed }
    }

    /// Offers a shutdown envelope to the mailbox with handle `handle`, as a
    /// retry for one that `shutdown` left pending: appended where there is
    /// room, otherwise `Full` or `Closed` and the mailbox is left as it was.
    pub fn deliver_shutdown(&mut self, handle: usize) -> (r: Result<(), DeliveryError>)
        requires
            old(self).wf(),
            handle < old(self).names().len(),
        ensures
            final(self).wf(),
            final(self).names() == old(self).names(),
            final(self).spec_capacity() == old(self).spec_capacity(),
            final(self).spec_policy() == old(self).spec_policy(),
            final(self).mailboxes() == old(self).mailboxes().update(
                handle as int,
                final(self).mailboxes()[handle as int],
            ),
            ({
                let b = old(self).mailboxes()[handle as int];
                let a = final(self).mailboxes()[handle as int];
                &&& a.spec_capacity() == b.spec_capacity()
                &&& a.is_closed() == b.is_closed()
                &&& b.is_closed() ==> r == Err::<(), DeliveryError>(DeliveryError::Closed)
                &&& !b.is_closed() && b.is_full() ==> r == Err::<(), DeliveryError>(
                    DeliveryError::Full,
                )
                &&& !b.is_closed() && !b.is_full() ==> r is Ok
                &&& r is Ok ==> a.queue() == b.queue().push(Message::Shutdown)
                &&& r is Err ==> a == b
            }),
    {
        self.deliver(handle, Message::Shutdown)
    }

    /// Closes the mailbox with handle `handle`, as when its task has ended:
    /// it takes nothing more, keeps what is queued, and no other mailbox
    /// changes.
    pub fn close_mailbox(&mut self, handle: usize)
        requires
            old(self).wf(),
            handle < old(self).names().len(),
        ensures
            final(self).wf(),
            final(self).names() == old(self).names(),
            final(self).spec_capacity() == old(self).spec_capacity(),
            final(self).spec_policy() == old(self).spec_policy(),
            final(self).mailboxes() == old(self).mailboxes().update(
                handle as int,
                final(self).mailboxes()[handle as int],
            ),
            final(self).mailboxes()[handle as int].is_closed(),
            final(self).mailboxes()[handle as int].queue() == old(self).mailboxes()[handle as int].queue(),
            final(self).mailboxes()[handle as int].spec_capacity() == old(self).mailboxes()[
                handle as int
            ].spec_capacity(),
    {
        assert(self.mailboxes()[handle as int] == self.routes@[handle as int].mailbox);
        assert(self.mailboxes()[handle as int].wf());
        self.routes[handle].mailbox.close();
        proof {
            assert(self.names() =~= old(self).names());
            assert(self.mailboxes() =~= old(self).mailboxes().update(
                handle as int,
                self.mailboxes()[handle as int],
            ));
            assert(self.mailboxes()[handle as int] == self.routes@[handle as int].mailbox);
        }
    }

    /// Closes every mailbox, as when the registry goes away: nothing more is
    /// accepted, and what is queued stays for the tasks to take.
    pub fn close_all(&mut self)
        requires
            old(self).wf(),
        ensures
            final(self).wf(),
            final(self).names() == old(self).names(),
            final(self).spec_capacity() == old(self).spec_capacity(),
            final(self).spec_policy() == old(self).spec_policy(),
            final(self).mailboxes().len() == old(self).mailboxes().len(),
            forall|i: int|
                0 <= i < old(self).mailboxes().len() ==> {
                    let b = #[trigger] old(self).mailboxes()[i];
                    let a = final(self).mailboxes()[i];
                    &&& a.is_closed()
                    &&& a.queue() == b.queue()
                    &&& a.spec_capacity() == b.spec_capacity()
                },
    {
        let n = self.routes.len();
        let mut i: usize = 0;
        while i < n
            invariant
                self.wf(),
                n == self.names().len(),
                0 <= i <= n,
                self.names() == old(self).names(),
                self.spec_capacity() == old(self).spec_capacity(),
                self.spec_policy() == old(self).spec_policy(),
                self.mailboxes().len() == old(self).mailboxes().len(),
                forall|j: int| 0 <= j < i ==> (#[trigger] self.mailboxes()[j]).is_closed(),
                forall|j: int| 0 <= j < i ==> (#[trigger] self.mailboxes()[j]).queue() == old(self).mailboxes()[j].queue(),
                forall|j: int| 0 <= j < i ==> (#[trigger] self.mailboxes()[j]).spec_capacity() == old(self).mailboxes()[j].spec_capacity(),
                forall|j: int| i <= j < n ==> #[trigger] self.mailboxes()[j] == old(self).mailboxes()[j],
            decreases n - i,
        {
            let ghost before = *self;
            assert(self.mailboxes()[i as int] == self.routes@[i as int].mailbox);
            assert(self.mailboxes()[i as int].wf());
            self.routes[i].mailbox.close();
            proof {
                assert(self.names() =~= before.names());
                assert(self.mailboxes() =~= before.mailboxes().update(
                    i as int,
                    self.mailboxes()[i as int],
                ));
                assert(self.mailboxes()[i as int] == self.routes@[i as int].mailbox);
                assert(before.mailboxes()[i as int] == old(self).mailboxes()[i as int]);
                assert forall|j: int| 0 <= j < n && j != i implies #[trigger] self.mailboxes()[j]
                    == before.mailboxes()[j] by {}
            }
            i = i + 1;
        }
    }

    /// Whether the mailbox with handle `handle` is closed.
    pub fn mailbox_closed(&self, handle: usize) -> (r: bool)
        requires
            self.wf(),
            handle < self.names().len(),
        ensures
            r == self.mailboxes()[handle as int].is_closed(),
    {
        assert(self.mailboxes()[handle as int] == self.routes@[handle as int].mailbox);
        self.routes[handle].mailbox.closed()
    }

    /// The name registration `handle` was made under.
    pub fn name_of(&self, handle: usize) -> (r: String)
        requires
            self.wf(),
            handle < self.names().len(),
        ensures
            r@ == self.names()[handle as int],
    {
        self.routes[handle].name.clone()
    }

    /// Takes the oldest envelope from the mailbox with handle `handle`.
    pub fn next_envelope(&mut self, handle: usize) -> (r: Option<Message<M>>)
        requires
            old(self).wf(),
            handle < old(self).names().len(),
        ensures
            final(self).wf(),
            final(self).names() == old(self).names(),
            final(self).spec_capacity() == old(self).spec_capacity(),
            final(self).spec_policy() == old(self).spec_policy(),
            final(self).mailboxes() == old(self).mailboxes().update(
                handle as int,
                final(self).mailboxes()[handle as int],
            ),
            ({
                let b = old(self).mailboxes()[handle as int];
                let a = final(self).mailboxes()[handle as int];
                &&& a.spec_capacity() == b.spec_capacity()
                &&& a.is_closed() == b.is_closed()
                &&& b.queue().len() == 0 ==> r is None && a.queue() == b.queue()
                &&& b.queue().len() > 0 ==> r == Some(b.queue()[0]) && a.queue()
                    == b.queue().drop_first()
            }),
    {
        assert(self.mailboxes()[handle as int] == self.routes@[handle as int].mailbox);
        assert(self.mailboxes()[handle as int].wf());
        let r = self.routes[handle].mailbox.recv();
        proof {
            assert(self.names() =~= old(self).names());
            assert(self.mailboxes() =~= old(self).mailboxes().update(
                handle as int,
                self.mailboxes()[handle as int],
            ));
            assert(self.mailboxes()[handle as int] == self.routes@[handle as int].mailbox);
        }
        r
    }
}

/// The task-loop event that taking `m` from the mailbox is.
pub open spec fn event_of<M>(m: Message<M>) -> TaskEvent {
    match m {
        Message::Regular(_) => TaskEvent::Regular,
        Message::Shutdown => TaskEvent::Shutdown,
    }
}

/// The phase a task reaches by handling an envelope that it took in `phase`:
/// when the envelope starts cleanup, cleanup runs at once and the task ends.
pub open spec fn phase_after_envelope(phase: TaskPhase, event: TaskEvent) -> TaskPhase {
    if next_action(phase, event) == TaskAction::DeliverThenCleanup {
        next_phase(next_phase(phase, event), TaskEvent::CleanupDone)
    } else {
        next_phase(phase, event)
    }
}

/// Handles one envelope taken from the actor's mailbox while its task stands
/// in `phase`: delivers it to `receive` while running, then, for a shutdown
/// envelope, runs `cleanup` and ends the task; once the task has stopped
/// running the envelope is dropped. An error from `receive` is handed back,
/// for the caller to report, and does not stop the task.
pub fn process_envelope<A: Actor>(actor: &mut A, phase: TaskPhase, envelope: Message<A::Message>) -> (r: (
    TaskPhase,
    Option<A::Error>,
))
    ensures
        r.0 == phase_after_envelope(phase, event_of(envelope)),
        next_action(phase, event_of(envelope)) == TaskAction::DeliverThenCleanup ==> r.0
            == TaskPhase::Terminated,
        !delivers(next_action(phase, event_of(envelope))) ==> r.1 is None,
{
    let event = match &envelope {
        Message::Regular(_) => TaskEvent::Regular,
        Message::Shutdown => TaskEvent::Shutdown,
    };
    let (next, action) = task_step(phase, event);
    match action {
        TaskAction::Deliver => {
            let error = match actor.receive(envelope) {
                Ok(()) => None,
                Err(e) => Some(e),
            };
            (next, error)
        },
        TaskAction::DeliverThenCleanup => {
            let error = match actor.receive(envelope) {
                Ok(()) => None,
                Err(e) => Some(e),
            };
            actor.cleanup();
            let (done, _) = task_step(next, TaskEvent::CleanupDone);
            (done, error)
        },
        _ => (next, None),
    }
}

/// Ends the task of an actor whose mailbox is closed and empty: runs
/// `cleanup` if the task was still running (never a second time) and returns
/// the final phase.
pub fn finish<A: Actor>(actor: &mut A, phase: TaskPhase) -> (r: TaskPhase)
    ensures
        r == if phase == TaskPhase::Draining {
            TaskPhase::Draining
        } else {
            TaskPhase::Terminated
        },
{
    let (next, action) = task_step(phase, TaskEvent::Closed);
    match action {
        TaskAction::Cleanup => {
            actor.cleanup();
            let (done, _) = task_step(next, TaskEvent::CleanupDone);
            done
        },
        _ => next,
    }
}

} // verus!
