//! The supervisor state machine: at most one live worker.
//!
//! The supervisor owns the handle of the one worker process and the base URL
//! cached alongside it; the two are created together and invalidated
//! together.  The surrounding application keeps a supervisor behind one
//! exclusive lock and, while holding it, consults `cached_url`, performs the
//! spawn, and records its outcome with `install`; `take` removes the handle
//! from the shared state before the application attempts termination.  The
//! handle type is a parameter: the library never touches the process itself.
//!
//! The transition functions below are the supervisor's protocol in its
//! purest form; the proof functions state the guarantees that linearizing
//! every operation through the one lock buys: idempotent and concurrency-safe
//! startup, ordered workspace switches, and stop as a no-op when idle.

use vstd::prelude::*;
use crate::urls::{base_url_for, base_url_spec, decimal_digits, decimal_string};

verus! {

/// The records of one live worker: its process handle, its port, and the
/// base URL cached for it.
pub struct WorkerEntry<H> {
    pub handle: H,
    pub port: u16,
    pub base_url: String,
}

/// The supervisor: `Idle` when it holds no worker, `Running` otherwise.
pub struct Supervisor<H> {
    pub worker: Option<WorkerEntry<H>>,
}

/// The outcome of one start operation on the abstract state (the port of
/// the live worker, if any): the state afterwards, the URL returned to the
/// caller, and whether a worker was spawned.  A cached worker is returned
/// unchanged; only a cold supervisor spawns, on the fresh port handed in.
pub open spec fn start_transition(st: Option<int>, fresh_port: int) -> (Option<int>, Seq<char>, bool) {
    match st {
        Some(p) => (Some(p), base_url_spec(p), false),
        None => (Some(fresh_port), base_url_spec(fresh_port), true),
    }
}

/// The outcome of one stop operation: the state afterwards and whether a
/// worker existed that must now be terminated.
pub open spec fn stop_transition(st: Option<int>) -> (Option<int>, bool) {
    (None, st is Some)
}

impl<H> Supervisor<H> {
    /// The cached base URL is exactly the one derived from the live
    /// worker's port.
    pub open spec fn wf(&self) -> bool {
        match self.worker {
            Some(w) => w.base_url@ == base_url_spec(w.port as int),
            None => true,
        }
    }

    /// The abstract state: the port of the live worker, if any.
    pub open spec fn model(&self) -> Option<int> {
        match self.worker {
            Some(w) => Some(w.port as int),
            None => None,
        }
    }

    /// A fresh supervisor with no worker.
    pub fn new() -> (s: Supervisor<H>)
        ensures
            s.model() is None,
            s.wf(),
    {
        Supervisor { worker: None }
    }

    /// The cached base URL, present exactly while a worker is live.
    pub fn cached_url(&self) -> (r: Option<String>)
        requires
            self.wf(),
        ensures
            match r {
                Some(u) => self.model() is Some && u@ == base_url_spec(self.model()->0),
                None => self.model() is None,
            },
    {
        match &self.worker {
            Some(w) => Some(w.base_url.clone()),
            None => None,
        }
    }

    /// Records a successful spawn: stores the handle together with the base
    /// URL derived from the port, and returns that URL.  Only an idle
    /// supervisor accepts a new worker; a failed spawn stores nothing and
    /// leaves the supervisor idle.
    pub fn install(&mut self, handle: H, port: u16) -> (url: String)
        requires
            old(self).model() is None,
        ensures
            final(self).wf(),
            final(self).model() == Some(port as int),
            final(self).worker matches Some(w) && w.handle == handle && w.port == port,
            url@ == base_url_spec(port as int),
            start_transition(old(self).model(), port as int) == (
                final(self).model(),
                url@,
                true,
            ),
    {
        let base_url = base_url_for(port);
        let url = base_url.clone();
        self.worker = Some(WorkerEntry { handle, port, base_url });
        url
    }

    /// Takes ownership of the current handle, leaving the supervisor idle;
    /// the caller terminates the returned worker.  With no worker live this
    /// is a no-op: nothing is returned and nothing changes.
    pub fn take(&mut self) -> (h: Option<H>)
        ensures
            final(self).model() is None,
            final(self).wf(),
            match old(self).worker {
                Some(w) => h == Some(w.handle),
                None => h is None && *final(self) == *old(self),
            },
            stop_transition(old(self).model()) == (final(self).model(), h is Some),
    {
        let w = self.worker.take();
        match w {
            Some(e) => Some(e.handle),
            None => None,
        }
    }
}

/// The command-line arguments the worker is launched with: host, port and
/// workspace directory, each as a flag followed by its value.
pub fn worker_args(port: u16, workspace: &str) -> (args: Vec<String>)
    ensures
        args@.len() == 6,
        args@[0]@ == "--host"@,
        args@[1]@ == "127.0.0.1"@,
        args@[2]@ == "--port"@,
        args@[3]@ == decimal_digits(port as int),
        args@[4]@ == "--dir"@,
        args@[5]@ == workspace@,
{
    let mut args: Vec<String> = Vec::new();
    args.push(String::from_str("--host"));
    args.push(String::from_str("127.0.0.1"));
    args.push(String::from_str("--port"));
    args.push(decimal_string(port));
    args.push(String::from_str("--dir"));
    args.push(String::from_str(workspace));
    args
}

/// The environment variables the worker is launched with, a redundant
/// channel carrying the same port and workspace directory.
pub fn worker_env(port: u16, workspace: &str) -> (env: Vec<(String, String)>)
    ensures
        env@.len() == 2,
        env@[0].0@ == "PORT"@,
        env@[0].1@ == decimal_digits(port as int),
        env@[1].0@ == "LITEFETCH_WORKSPACE"@,
        env@[1].1@ == workspace@,
{
    let mut env: Vec<(String, String)> = Vec::new();
    env.push((String::from_str("PORT"), decimal_string(port)));
    env.push((String::from_str("LITEFETCH_WORKSPACE"), String::from_str(workspace)));
    env
}

/// Idempotent start: whatever start returned once, a second start with no
/// stop in between returns the same URL, changes nothing, and spawns no
/// second worker.
pub proof fn lemma_start_idempotent(st: Option<int>, fresh1: int, fresh2: int)
    ensures
        ({
            let first = start_transition(st, fresh1);
            let second = start_transition(first.0, fresh2);
            second.0 == first.0 && second.1 == first.1 && !second.2
        }),
{
}

/// The collected outcome of a series of start operations linearized through
/// the supervisor's lock: the final state, every returned URL in order, and
/// how many of the operations spawned a worker.
pub open spec fn run_starts(st: Option<int>, fresh: Seq<int>) -> (Option<int>, Seq<Seq<char>>, int)
    decreases fresh.len(),
{
    if fresh.len() == 0 {
        (st, Seq::empty(), 0)
    } else {
        let first = start_transition(st, fresh[0]);
        let rest = run_starts(first.0, fresh.drop_first());
        (rest.0, seq![first.1] + rest.1, (if first.2 { 1int } else { 0int }) + rest.2)
    }
}

/// Against a running worker, any number of further starts spawn nothing,
/// leave the state alone, and all return that worker's URL.
pub proof fn lemma_starts_on_running(p: int, fresh: Seq<int>)
    ensures
        ({
            let r = run_starts(Some(p), fresh);
            r.0 == Some(p) && r.2 == 0 && r.1.len() == fresh.len() && (forall|i: int|
                0 <= i < r.1.len() ==> r.1[i] == base_url_spec(p))
        }),
    decreases fresh.len(),
{
    if fresh.len() > 0 {
        lemma_starts_on_running(p, fresh.drop_first());
    }
}

/// Concurrency-safe start: any number of start operations against a cold
/// supervisor, linearized through its lock, spawn exactly one worker, and
/// every one of them returns that worker's URL.
pub proof fn lemma_concurrent_starts(fresh: Seq<int>)
    requires
        fresh.len() >= 1,
    ensures
        ({
            let r = run_starts(None, fresh);
            r.2 == 1 && r.1.len() == fresh.len() && (forall|i: int|
                0 <= i < fresh.len() ==> r.1[i] == base_url_spec(fresh[0]))
        }),
{
    lemma_starts_on_running(fresh[0], fresh.drop_first());
}

/// Switch correctness: a switch against a worker on the old port first
/// performs the stop transition, which surrenders that worker for
/// termination and leaves no cached URL, and only then the start
/// transition, whose resulting state and returned URL belong to the new
/// port.
pub proof fn lemma_switch_correct(old_port: int, new_port: int)
    ensures
        ({
            let stopped = stop_transition(Some(old_port));
            let started = start_transition(stopped.0, new_port);
            stopped.1 && stopped.0 is None && started.0 == Some(new_port) && started.1
                == base_url_spec(new_port) && started.2
        }),
{
}

/// Stop on an idle supervisor surrenders no worker and is a no-op.
pub proof fn lemma_stop_noop()
    ensures
        !stop_transition(None).1,
        stop_transition(None).0 is None,
{
}

} // verus!
