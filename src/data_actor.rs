//! An actor that writes what it receives through a storage backend.

use vstd::prelude::*;

use crate::actor_system::{Actor, Message};
use crate::backends::storage::StorageBackend;

verus! {

/// An actor that owns a storage backend: a regular envelope's payload is
/// written to it, and a shutdown envelope cleans it up.
///
/// Each call the actor makes on its backend goes through exactly one of its
/// own methods, which records the call: the strings handed to `write` in
/// order, and how many times `read` and `cleanup` were called. The contracts
/// below are stated over that record.
#[derive(Clone)]
pub struct DataActor<B: StorageBackend> {
    backend: B,
    written: Ghost<Seq<Seq<char>>>,
    reads: Ghost<nat>,
    cleanups: Ghost<nat>,
}

impl<B: StorageBackend> DataActor<B> {
    /// The backend this actor owns, as it was handed over.
    pub closed spec fn spec_backend(&self) -> B {
        self.backend
    }

    /// Every string handed to the backend's `write`, oldest first.
    pub closed spec fn writes(&self) -> Seq<Seq<char>> {
        self.written@
    }

    /// How many times the backend's `read` was called.
    pub closed spec fn reads(&self) -> nat {
        self.reads@
    }

    /// How many times the backend's `cleanup` was called.
    pub closed spec fn cleanups(&self) -> nat {
        self.cleanups@
    }

    pub fn new(backend: B) -> (r: Self)
        ensures
            r.spec_backend() == backend,
            r.writes() == Seq::<Seq<char>>::empty(),
            r.reads() == 0,
            r.cleanups() == 0,
    {
        DataActor { backend, written: Ghost(Seq::empty()), reads: Ghost(0), cleanups: Ghost(0) }
    }

    /// Hands `data` to the backend's `write` and returns what it returns.
    pub fn write_to_backend(&mut self, data: &str) -> (r: Result<(), String>)
        ensures
            final(self).writes() == old(self).writes().push(data@),
            final(self).reads() == old(self).reads(),
            final(self).cleanups() == old(self).cleanups(),
    {
        self.written = Ghost(self.written@.push(data@));
        self.backend.write(data)
    }

    /// Calls the backend's `read` and returns what it returns.
    pub fn read_from_backend(&mut self) -> (r: Result<String, String>)
        ensures
            final(self).writes() == old(self).writes(),
            final(self).reads() == old(self).reads() + 1,
            final(self).cleanups() == old(self).cleanups(),
    {
        self.reads = Ghost(self.reads@ + 1);
        self.backend.read()
    }

    /// Calls the backend's `cleanup` and returns what it returns.
    pub fn cleanup_backend(&mut self) -> (r: Result<(), String>)
        ensures
            final(self).writes() == old(self).writes(),
            final(self).reads() == old(self).reads(),
            final(self).cleanups() == old(self).cleanups() + 1,
    {
        self.cleanups = Ghost(self.cleanups@ + 1);
        self.backend.cleanup()
    }
}

impl<B: StorageBackend> Actor for DataActor<B> {
    type Message = String;

    type Error = String;

    /// A regular envelope's payload goes to the backend's `write`; a shutdown
    /// envelope runs the backend's `cleanup`. What the backend returns is
    /// handed back.
    fn receive(&mut self, message: Message<String>) -> (r: Result<(), String>)
        ensures
            final(self).reads() == old(self).reads(),
            match message {
                Message::Regular(d) => {
                    &&& final(self).writes() == old(self).writes().push(d@)
                    &&& final(self).cleanups() == old(self).cleanups()
                },
                Message::Shutdown => {
                    &&& final(self).writes() == old(self).writes()
                    &&& final(self).cleanups() == old(self).cleanups() + 1
                },
            },
    {
        match message {
            Message::Regular(data) => self.write_to_backend(data.as_str()),
            Message::Shutdown => self.cleanup_backend(),
        }
    }

    /// Runs the backend's `cleanup` once; a failure is dropped, so that a
    /// failing cleanup cannot hold up a shutdown.
    fn cleanup(&mut self)
        ensures
            final(self).writes() == old(self).writes(),
            final(self).reads() == old(self).reads(),
            final(self).cleanups() == old(self).cleanups() + 1,
    {
        let _ = self.cleanup_backend();
    }
}

} // verus!
