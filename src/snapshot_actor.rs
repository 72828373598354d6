//! An actor whose string state is saved to, and restored from, a storage
//! backend as `<actor_id>:<state>`, with a cancellable periodic save.

use vstd::prelude::*;

use crate::backends::storage::StorageBackend;
use crate::data_actor::DataActor;
use tokio::sync::watch::{Receiver, Sender};

verus! {

#[verifier::external_type_specification]
#[verifier::external_body]
#[verifier::reject_recursive_types(T)]
pub struct ExWatchSender<T>(Sender<T>);

#[verifier::external_type_specification]
#[verifier::external_body]
#[verifier::reject_recursive_types(T)]
pub struct ExWatchReceiver<T>(Receiver<T>);

/// Relies on tokio::sync::watch::channel: a sender and a receiver of one
/// shared signal.
#[verifier::external_body]
fn shutdown_channel() -> (r: (Sender<()>, Receiver<()>)) {
    tokio::sync::watch::channel(())
}

/// Relies on tokio::sync::watch::Sender::send: wakes every receiver of the
/// signal; it fails only where no receiver is left, which is no error here.
#[verifier::external_body]
fn raise_signal(tx: &Sender<()>) {
    let _ = tx.send(());
}

/// Relies on tokio::sync::watch::Sender's Clone: a second sender of the same
/// signal.
#[verifier::external_body]
fn copy_sender(tx: &Sender<()>) -> (r: Sender<()>) {
    tx.clone()
}

/// Relies on tokio::sync::watch::Receiver's Clone: a second receiver of the
/// same signal, which has seen what the first one has seen.
#[verifier::external_body]
fn copy_receiver(rx: &Receiver<()>) -> (r: Receiver<()>) {
    rx.clone()
}

/// Relies on str::split_once: splits at the first occurrence of the
/// delimiter, and gives `None` where it does not occur.
#[verifier::external_body]
fn split_at_first_colon(s: &str) -> (r: Option<(&str, &str)>)
    ensures
        match r {
            None => forall|q: int| 0 <= q < s@.len() ==> s@[q] != ':',
            Some(parts) => {
                &&& splits_at(s@, parts.0@.len() as int)
                &&& parts.0@ == s@.subrange(0, parts.0@.len() as int)
                &&& parts.1@ == s@.subrange(parts.0@.len() as int + 1, s@.len() as int)
            },
        },
{
    s.split_once(':')
}

/// Position `p` of `data` holds its first colon.
pub open spec fn splits_at(data: Seq<char>, p: int) -> bool {
    &&& 0 <= p < data.len()
    &&& data[p] == ':'
    &&& forall|q: int| 0 <= q < p ==> data[q] != ':'
}

/// The persisted form of a snapshot: the actor's id, a colon, the state.
pub open spec fn record_of(actor_id: Seq<char>, state: Seq<char>) -> Seq<char> {
    actor_id + seq![':'] + state
}

/// The state after loading `data` into an actor with id `actor_id` whose
/// state is `current`: what follows the first colon, where what precedes it
/// is exactly `actor_id`; otherwise `current`.
pub open spec fn loaded_state(current: Seq<char>, actor_id: Seq<char>, data: Seq<char>) -> Seq<char> {
    if exists|p: int| splits_at(data, p) && data.subrange(0, p) == actor_id {
        let p = choose|p: int| splits_at(data, p) && data.subrange(0, p) == actor_id;
        data.subrange(p + 1, data.len() as int)
    } else {
        current
    }
}

proof fn lemma_first_colon_unique(data: Seq<char>, p: int, q: int)
    requires
        splits_at(data, p),
        splits_at(data, q),
    ensures
        p == q,
{
}

/// Saving a snapshot and loading it back into an actor with the same id
/// restores the state exactly, whatever the state held before. The id must
/// hold no colon, since the first colon ends it in the persisted form.
pub proof fn snapshot_round_trip(actor_id: Seq<char>, state: Seq<char>, current: Seq<char>)
    requires
        forall|q: int| 0 <= q < actor_id.len() ==> actor_id[q] != ':',
    ensures
        loaded_state(current, actor_id, record_of(actor_id, state)) == state,
{
    let data = record_of(actor_id, state);
    let p = actor_id.len() as int;
    assert(splits_at(data, p));
    assert(data.subrange(0, p) == actor_id);
    let c = choose|c: int| splits_at(data, c) && data.subrange(0, c) == actor_id;
    lemma_first_colon_unique(data, p, c);
    assert(data.subrange(p + 1, data.len() as int) == state);
}

/// Loading data whose persisted id is not this actor's, or data with no
/// colon at all, leaves the state as it was.
pub proof fn foreign_snapshot_ignored(current: Seq<char>, actor_id: Seq<char>, data: Seq<char>)
    requires
        forall|p: int| splits_at(data, p) ==> data.subrange(0, p) != actor_id,
    ensures
        loaded_state(current, actor_id, data) == current,
{
}

/// An actor with a string state that it saves to and loads from the backend
/// of its data actor, and a shutdown signal for its periodic save.
pub struct SnapshotActor<B: StorageBackend> {
    state: String,
    data_actor: DataActor<B>,
    actor_id: String,
    shutdown_tx: Sender<()>,
    shutdown_rx: Receiver<()>,
}

impl<B: StorageBackend> SnapshotActor<B> {
    pub closed spec fn spec_state(&self) -> Seq<char> {
        self.state@
    }

    pub closed spec fn spec_actor_id(&self) -> Seq<char> {
        self.actor_id@
    }

    /// The data actor whose backend the state is saved to and loaded from.
    pub closed spec fn spec_data_actor(&self) -> DataActor<B> {
        self.data_actor
    }

    /// The two ends of the shutdown signal.
    pub closed spec fn spec_signal(&self) -> (Sender<()>, Receiver<()>) {
        (self.shutdown_tx, self.shutdown_rx)
    }

    /// A new actor with an empty state, writing through `backend`.
    pub fn new(actor_id: String, backend: B) -> (r: Self)
        ensures
            r.spec_actor_id() == actor_id@,
            r.spec_state() == Seq::<char>::empty(),
            r.spec_data_actor().spec_backend() == backend,
            r.spec_data_actor().writes() == Seq::<Seq<char>>::empty(),
            r.spec_data_actor().reads() == 0,
            r.spec_data_actor().cleanups() == 0,
    {
        let data_actor = DataActor::new(backend);
        let (shutdown_tx, shutdown_rx) = shutdown_channel();
        SnapshotActor { state: String::new(), data_actor, actor_id, shutdown_tx, shutdown_rx }
    }

    /// The persisted form of the current state.
    pub fn snapshot_record(&self) -> (r: String)
        ensures
            r@ == record_of(self.spec_actor_id(), self.spec_state()),
    {
        let mut data = self.actor_id.clone();
        proof {
            reveal_strlit(":");
        }
        data.append(":");
        data.append(self.state.as_str());
        data
    }

    /// Writes the persisted form of the state through the backend's `write`,
    /// and calls nothing else on it. A backend error is handed back; the
    /// state and id stay as they are either way.
    pub fn save_state(&mut self) -> (r: Result<(), String>)
        ensures
            final(self).spec_state() == old(self).spec_state(),
            final(self).spec_actor_id() == old(self).spec_actor_id(),
            final(self).spec_signal() == old(self).spec_signal(),
            final(self).spec_data_actor().writes() == old(self).spec_data_actor().writes().push(
                record_of(old(self).spec_actor_id(), old(self).spec_state()),
            ),
            final(self).spec_data_actor().reads() == old(self).spec_data_actor().reads(),
            final(self).spec_data_actor().cleanups() == old(self).spec_data_actor().cleanups(),
    {
        let data = self.snapshot_record();
        self.data_actor.write_to_backend(data.as_str())
    }

    /// Takes `data` as a persisted snapshot: where its id is this actor's,
    /// its state becomes the current one; otherwise nothing changes.
    pub fn apply_snapshot(&mut self, data: &str)
        ensures
            final(self).spec_state() == loaded_state(
                old(self).spec_state(),
                old(self).spec_actor_id(),
                data@,
            ),
            final(self).spec_actor_id() == old(self).spec_actor_id(),
            final(self).spec_signal() == old(self).spec_signal(),
            final(self).spec_data_actor() == old(self).spec_data_actor(),
    {
        match split_at_first_colon(data) {
            None => {
                proof {
                    assert(!exists|p: int| splits_at(data@, p));
                }
            },
            Some((id, state)) => {
                let ghost p = id@.len() as int;
                if id.to_owned() == self.actor_id {
                    proof {
                        let c = choose|c: int|
                            splits_at(data@, c) && data@.subrange(0, c) == self.actor_id@;
                        lemma_first_colon_unique(data@, p, c);
                    }
                    self.state = state.to_owned();
                } else {
                    proof {
                        assert forall|c: int| splits_at(data@, c) implies data@.subrange(0, c)
                            != self.actor_id@ by {
                            lemma_first_colon_unique(data@, p, c);
                        }
                    }
                }
            },
        }
    }

    /// Reads the persisted snapshot through the backend's `read`, once and
    /// with no other call on it, and applies what was read as
    /// `apply_snapshot` does. A backend error is handed back and leaves the
    /// state as it was.
    pub fn load_state(&mut self) -> (r: Result<(), String>)
        ensures
            final(self).spec_actor_id() == old(self).spec_actor_id(),
            final(self).spec_signal() == old(self).spec_signal(),
            r is Err ==> final(self).spec_state() == old(self).spec_state(),
            final(self).spec_data_actor().writes() == old(self).spec_data_actor().writes(),
            final(self).spec_data_actor().reads() == old(self).spec_data_actor().reads() + 1,
            final(self).spec_data_actor().cleanups() == old(self).spec_data_actor().cleanups(),
    {
        match self.data_actor.read_from_backend() {
            Err(e) => Err(e),
            Ok(data) => {
                self.apply_snapshot(data.as_str());
                Ok(())
            },
        }
    }

    pub fn set_state(&mut self, state: String)
        ensures
            final(self).spec_state() == state@,
            final(self).spec_actor_id() == old(self).spec_actor_id(),
            final(self).spec_signal() == old(self).spec_signal(),
            final(self).spec_data_actor() == old(self).spec_data_actor(),
    {
        self.state = state;
    }

    pub fn get_state(&self) -> (r: String)
        ensures
            r@ == self.spec_state(),
    {
        self.state.clone()
    }

    pub fn actor_id(&self) -> (r: String)
        ensures
            r@ == self.spec_actor_id(),
    {
        self.actor_id.clone()
    }

    /// Raises the shutdown signal, seen by this actor and every clone of it.
    /// Raising it again changes nothing more; it does not wait for the
    /// periodic task to stop.
    pub fn shutdown(&self) {
        raise_signal(&self.shutdown_tx);
    }

    /// A receiver of the shutdown signal, for the periodic task to watch.
    pub fn shutdown_listener(&self) -> Receiver<()> {
        copy_receiver(&self.shutdown_rx)
    }
}

impl<B: StorageBackend + Clone> Clone for SnapshotActor<B> {
    /// A copy with the same state and id, writing through a clone of the
    /// backend and sharing the shutdown signal.
    fn clone(&self) -> (r: Self)
        ensures
            r.spec_state() == self.spec_state(),
            r.spec_actor_id() == self.spec_actor_id(),
    {
        SnapshotActor {
            state: self.state.clone(),
            data_actor: self.data_actor.clone(),
            actor_id: self.actor_id.clone(),
            shutdown_tx: copy_sender(&self.shutdown_tx),
            shutdown_rx: copy_receiver(&self.shutdown_rx),
        }
    }
}

/// Where the periodic save task stands.
#[derive(Debug, Clone, Copy, PartialEq, Eq, Structural)]
pub enum SnapshotPhase {
    /// Not started.
    Idle,
    /// Saving on every tick and watching the shutdown signal.
    Ticking,
    /// The signal was seen; the task is leaving its loop.
    ShuttingDown,
    /// The task has returned.
    Stopped,
}

/// What the periodic save task observed.
#[derive(Debug, Clone, Copy, PartialEq, Eq, Structural)]
pub enum TimerEvent {
    /// The task began.
    Start,
    /// The interval elapsed.
    Tick,
    /// The shutdown signal was raised.
    ShutdownSignal,
    /// The task left its loop.
    Exited,
}

/// What the periodic save task does next.
#[derive(Debug, Clone, Copy, PartialEq, Eq, Structural)]
pub enum TimerAction {
    /// Wait for the next event.
    Wait,
    /// Save the state; a failure is reported and the task goes on.
    Save,
    /// Leave the loop.
    Stop,
}

pub open spec fn timer_next(phase: SnapshotPhase, event: TimerEvent) -> (SnapshotPhase, TimerAction) {
    match (phase, event) {
        (SnapshotPhase::Idle, TimerEvent::Start) => (SnapshotPhase::Ticking, TimerAction::Wait),
        (SnapshotPhase::Ticking, TimerEvent::Tick) => (SnapshotPhase::Ticking, TimerAction::Save),
        (SnapshotPhase::Idle, TimerEvent::ShutdownSignal) => (
            SnapshotPhase::ShuttingDown,
            TimerAction::Stop,
        ),
        (SnapshotPhase::Ticking, TimerEvent::ShutdownSignal) => (
            SnapshotPhase::ShuttingDown,
            TimerAction::Stop,
        ),
        (SnapshotPhase::ShuttingDown, TimerEvent::Exited) => (
            SnapshotPhase::Stopped,
            TimerAction::Stop,
        ),
        (SnapshotPhase::ShuttingDown, _) => (SnapshotPhase::ShuttingDown, TimerAction::Stop),
        (SnapshotPhase::Stopped, _) => (SnapshotPhase::Stopped, TimerAction::Stop),
        _ => (phase, TimerAction::Wait),
    }
}

/// One decision of the periodic save task: once started it saves on every
/// tick; the shutdown signal, seen before or after the start, stops it.
pub fn timer_step(phase: SnapshotPhase, event: TimerEvent) -> (r: (SnapshotPhase, TimerAction))
    ensures
        r == timer_next(phase, event),
{
    match (phase, event) {
        (SnapshotPhase::Idle, TimerEvent::Start) => (SnapshotPhase::Ticking, TimerAction::Wait),
        (SnapshotPhase::Ticking, TimerEvent::Tick) => (SnapshotPhase::Ticking, TimerAction::Save),
        (SnapshotPhase::Idle, TimerEvent::ShutdownSignal) => (
            SnapshotPhase::ShuttingDown,
            TimerAction::Stop,
        ),
        (SnapshotPhase::Ticking, TimerEvent::ShutdownSignal) => (
            SnapshotPhase::ShuttingDown,
            TimerAction::Stop,
        ),
        (SnapshotPhase::ShuttingDown, TimerEvent::Exited) => (
            SnapshotPhase::Stopped,
            TimerAction::Stop,
        ),
        (SnapshotPhase::ShuttingDown, _) => (SnapshotPhase::ShuttingDown, TimerAction::Stop),
        (SnapshotPhase::Stopped, _) => (SnapshotPhase::Stopped, TimerAction::Stop),
        _ => (phase, TimerAction::Wait),
    }
}

pub open spec fn spec_pick_event(shutdown_ready: bool, tick_ready: bool) -> Option<TimerEvent> {
    if shutdown_ready {
        Some(TimerEvent::ShutdownSignal)
    } else if tick_ready {
        Some(TimerEvent::Tick)
    } else {
        None
    }
}

/// The event the periodic task takes when the signal and the timer are
/// ready or not: the shutdown signal wins over a tick ready at the same time.
pub fn pick_event(shutdown_ready: bool, tick_ready: bool) -> (r: Option<TimerEvent>)
    ensures
        r == spec_pick_event(shutdown_ready, tick_ready),
{
    if shutdown_ready {
        Some(TimerEvent::ShutdownSignal)
    } else if tick_ready {
        Some(TimerEvent::Tick)
    } else {
        None
    }
}

/// A raised shutdown signal stops the periodic task at its next decision,
/// whether or not a tick is ready at the same moment and whether or not the
/// task has started: no further save happens and no tick is waited for.
pub proof fn shutdown_stops_without_tick(phase: SnapshotPhase, tick_ready: bool)
    ensures
        ({
            let e = spec_pick_event(true, tick_ready)->0;
            &&& spec_pick_event(true, tick_ready) is Some
            &&& timer_next(phase, e).1 == TimerAction::Stop
            &&& timer_next(phase, e).0 == SnapshotPhase::ShuttingDown || timer_next(phase, e).0
                == SnapshotPhase::Stopped
            &&& timer_next(timer_next(phase, e).0, TimerEvent::Exited).0 == SnapshotPhase::Stopped
        }),
{
}

} // verus!
