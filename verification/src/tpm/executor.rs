//! The way from the device to the backend, with a record of what went over it.

use crate::tpm::{may_answer, TpmBackend};
use std::sync::Arc;
use vstd::prelude::*;

verus! {

/// A backend, and the commands that have been run on it from here, in order.
///
/// The fields are private to this file, so that a command that goes through an
/// executor is in its record.
pub struct Executor<B> {
    backend: Arc<B>,
    executed: Ghost<Seq<Seq<u8>>>,
}

impl<B> Executor<B> {
    /// The backend.
    pub closed spec fn backend(&self) -> B {
        *self.backend
    }

    /// The commands that have been run, in order.
    pub closed spec fn executed(&self) -> Seq<Seq<u8>> {
        self.executed@
    }

    /// A handle on the backend.
    pub fn handle(&self) -> (backend: Arc<B>)
        ensures
            *backend == self.backend(),
    {
        self.backend.clone()
    }
}

impl<B: TpmBackend> Executor<B> {
    /// An executor that has run nothing.
    pub fn new(backend: Arc<B>) -> (executor: Executor<B>)
        ensures
            executor.backend() == *backend,
            executor.executed() == Seq::<Seq<u8>>::empty(),
    {
        Executor { backend, executed: Ghost(Seq::empty()) }
    }
}

/// What an executor can run commands on: every [`TpmBackend`].
///
/// Code that knows no more of a type than this can have a command run by an
/// executor that it is given, which records it, and in no other way.
pub trait Runs: Sized {
    /// Whether `cmd` may be answered with `rsp`.
    spec fn answers(self, cmd: Seq<u8>, rsp: Seq<u8>) -> bool;

    /// Runs one command and returns the response to it.
    fn run(executor: &mut Executor<Self>, cmd: &[u8]) -> (rsp: Vec<u8>)
        ensures
            final(executor).backend() == old(executor).backend(),
            final(executor).executed() == old(executor).executed().push(cmd@),
            old(executor).backend().answers(cmd@, rsp@),
    ;
}

impl<B: TpmBackend> Runs for B {
    open spec fn answers(self, cmd: Seq<u8>, rsp: Seq<u8>) -> bool {
        may_answer(self, cmd, rsp)
    }

    fn run(executor: &mut Executor<B>, cmd: &[u8]) -> (rsp: Vec<u8>) {
        executor.executed = Ghost(executor.executed@.push(cmd@));
        executor.backend.execute_cmd(cmd)
    }
}

/// What a command is answered with comes from the backend: it has every
/// property that all of the backend's own answers to that command have.
pub proof fn law_answers_are_the_backends<B: TpmBackend>(
    backend: B,
    cmd: Seq<u8>,
    rsp: Seq<u8>,
    property: spec_fn(Seq<u8>) -> bool,
)
    requires
        forall|c: &[u8], r: Vec<u8>| #[trigger]
            call_ensures(B::execute_cmd, (&backend, c), r) && c@ == cmd ==> property(r@),
    ensures
        may_answer(backend, cmd, rsp) ==> property(rsp),
        backend.answers(cmd, rsp) ==> property(rsp),
{
}

} // verus!
