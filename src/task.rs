use vstd::prelude::*;
use std::marker::PhantomData;
use std::sync::atomic::{AtomicBool, Ordering};
use std::sync::Arc;

verus! {

/// A one-shot computation whose result becomes a message.
pub trait Job: Sized {
    type Output;

    /// The computation may be run.
    spec fn ready(&self) -> bool;

    /// `r` is a result that running the computation may give.
    spec fn yields(&self, r: Self::Output) -> bool;

    fn run(self) -> (r: Self::Output)
        requires
            self.ready(),
        ensures
            self.yields(r);
}

/// A computation given as a function of no arguments.
pub struct Perform<M, F> {
    f: F,
    _result: PhantomData<M>,
}

impl<M, F: FnOnce() -> M> Perform<M, F> {
    pub closed spec fn func(&self) -> F {
        self.f
    }

    pub fn new(f: F) -> (r: Perform<M, F>)
        ensures
            r.func() == f,
    {
        Perform { f, _result: PhantomData }
    }
}

impl<M, F: FnOnce() -> M> Job for Perform<M, F> {
    type Output = M;

    open spec fn ready(&self) -> bool {
        call_requires(self.func(), ())
    }

    open spec fn yields(&self, r: M) -> bool {
        call_ensures(self.func(), (), r)
    }

    fn run(self) -> (r: M) {
        (self.f)()
    }
}

/// A computation followed by a mapper applied to its result.
pub struct Mapped<J, G, N> {
    job: J,
    mapper: G,
    _result: PhantomData<N>,
}

impl<J: Job, N, G: FnOnce(J::Output) -> N> Mapped<J, G, N> {
    pub closed spec fn inner(&self) -> J {
        self.job
    }

    pub closed spec fn mapper(&self) -> G {
        self.mapper
    }
}

impl<J: Job, N, G: FnOnce(J::Output) -> N> Job for Mapped<J, G, N> {
    type Output = N;

    open spec fn ready(&self) -> bool {
        &&& self.inner().ready()
        &&& forall|x: J::Output| self.inner().yields(x) ==> call_requires(self.mapper(), (x,))
    }

    open spec fn yields(&self, r: N) -> bool {
        exists|x: J::Output| self.inner().yields(x) && call_ensures(self.mapper(), (x,), r)
    }

    fn run(self) -> (r: N) {
        let x = self.job.run();
        (self.mapper)(x)
    }
}

/// What a task does when executed.
pub enum Executor<J> {
    /// Nothing.
    Noop,
    /// Ends the application, with no message.
    Exit,
    /// Runs the computation in the background and sends its result.
    Run(J),
}

/// A one-shot effect returned by the update function, with the cancellation
/// flag that suppresses the delivery of its result.
pub struct Task<J> {
    pub executor: Executor<J>,
    pub cancel_flag: Option<Arc<AtomicBool>>,
}

/// The message to send for a result once the computation has finished:
/// none where the task was cancelled.
pub fn deliver<M>(value: M, cancelled: bool) -> (r: Option<M>)
    ensures
        r == (if cancelled { None } else { Some(value) }),
{
    if cancelled {
        None
    } else {
        Some(value)
    }
}

impl<J: Job> Task<J> {
    /// A task that does nothing.
    pub fn none() -> (r: Task<J>)
        ensures
            r.executor is Noop,
            r.cancel_flag is None,
    {
        Task { executor: Executor::Noop, cancel_flag: None }
    }

    /// A task that ends the application.
    pub fn exit() -> (r: Task<J>)
        ensures
            r.executor is Exit,
            r.cancel_flag is None,
    {
        Task { executor: Executor::Exit, cancel_flag: None }
    }

    /// Attaches the cancellation flag polled before the result is sent.
    pub fn cancelable(self, flag: Arc<AtomicBool>) -> (r: Task<J>)
        ensures
            r.executor == self.executor,
            r.cancel_flag == Some(flag),
    {
        Task { executor: self.executor, cancel_flag: Some(flag) }
    }

    /// Whether the computation, if any, may be run.
    pub open spec fn runnable(&self) -> bool {
        match self.executor {
            Executor::Run(j) => j.ready(),
            _ => true,
        }
    }

    /// Composes `mapper` after the computation; a task that does nothing or
    /// ends the application stays so. The cancellation flag is kept.
    pub fn map<N, G: FnOnce(J::Output) -> N>(self, mapper: G) -> (r: Task<Mapped<J, G, N>>)
        ensures
            r.cancel_flag == self.cancel_flag,
            self.executor is Noop <==> r.executor is Noop,
            self.executor is Exit <==> r.executor is Exit,
            self.executor is Run <==> r.executor is Run,
            self.executor is Run ==> r.executor->Run_0.inner() == self.executor->Run_0
                && r.executor->Run_0.mapper() == mapper,
    {
        let executor = match self.executor {
            Executor::Noop => Executor::Noop,
            Executor::Exit => Executor::Exit,
            Executor::Run(job) => Executor::Run(Mapped { job, mapper, _result: PhantomData }),
        };
        Task { executor, cancel_flag: self.cancel_flag }
    }

    /// Runs the computation to its end, whether cancelled or not, and then
    /// returns the message to send: none for a task without computation, or
    /// where the cancellation flag was found set after the run.
    pub fn complete(self) -> (r: Option<J::Output>)
        requires
            self.runnable(),
        ensures
            !(self.executor is Run) ==> r is None,
            r is Some ==> self.executor is Run && self.executor->Run_0.yields(r->Some_0),
            self.executor is Run && self.cancel_flag is None ==> r is Some,
    {
        match self.executor {
            Executor::Run(job) => {
                let value = job.run();
                let cancelled = match &self.cancel_flag {
                    Some(flag) => flag.load(Ordering::Relaxed),
                    None => false,
                };
                deliver(value, cancelled)
            },
            _ => None,
        }
    }
}

impl<M, F: FnOnce() -> M> Task<Perform<M, F>> {
    /// A task that computes `f()` in the background and sends the result.
    pub fn perform(f: F) -> (r: Task<Perform<M, F>>)
        ensures
            r.executor is Run,
            r.executor->Run_0.func() == f,
            r.cancel_flag is None,
    {
        Task { executor: Executor::Run(Perform::new(f)), cancel_flag: None }
    }
}

/// `v` is a result that one of the computations of `tasks` may give.
pub open spec fn produced_by<J: Job>(tasks: Seq<Task<J>>, v: J::Output) -> bool {
    exists|i: int| 0 <= i < tasks.len() && (#[trigger] tasks[i]).executor is Run && tasks[i].executor->Run_0.yields(v)
}

/// Tasks run one after the other, whose delivered results are collected in
/// order; a cancelled task adds nothing.
pub struct Joined<J> {
    tasks: Vec<Task<J>>,
}

impl<J: Job> Joined<J> {
    pub closed spec fn tasks(&self) -> Seq<Task<J>> {
        self.tasks@
    }
}

impl<J: Job> Job for Joined<J> {
    type Output = Vec<J::Output>;

    open spec fn ready(&self) -> bool {
        forall|i: int| 0 <= i < self.tasks().len() ==> (#[trigger] self.tasks()[i]).runnable()
    }

    open spec fn yields(&self, r: Vec<J::Output>) -> bool {
        &&& r@.len() <= self.tasks().len()
        &&& (forall|i: int| 0 <= i < self.tasks().len()
            ==> (#[trigger] self.tasks()[i]).executor is Run && self.tasks()[i].cancel_flag is None)
            ==> r@.len() == self.tasks().len()
        &&& forall|j: int| 0 <= j < r@.len() ==> produced_by(self.tasks(), #[trigger] r@[j])
    }

    fn run(self) -> (r: Vec<J::Output>) {
        let ghost all = self.tasks@;
        proof {
            assert forall|i: int| 0 <= i < all.len() implies (#[trigger] all[i]).runnable() by {
                assert(self.tasks()[i] == all[i]);
            }
        }
        let mut rest = self.tasks;
        let mut out: Vec<J::Output> = Vec::new();
        let len = rest.len();
        let mut k: usize = 0;
        while k < len
            invariant
                k <= len == all.len(),
                rest@ == all.skip(k as int),
                out@.len() <= k,
                forall|i: int| 0 <= i < all.len() ==> (#[trigger] all[i]).runnable(),
                (forall|i: int| 0 <= i < all.len() ==> (#[trigger] all[i]).executor is Run && all[i].cancel_flag is None)
                    ==> out@.len() == k,
                forall|j: int| 0 <= j < out@.len() ==> produced_by(all, #[trigger] out@[j]),
            decreases len - k,
        {
            let t = rest.remove(0);
            proof {
                assert(t == all[k as int]);
                assert(rest@ =~= all.skip(k + 1));
            }
            let got = t.complete();
            if let Some(v) = got {
                let ghost before = out@;
                out.push(v);
                proof {
                    assert forall|j: int| 0 <= j < out@.len() implies produced_by(all, #[trigger] out@[j]) by {
                        if j < before.len() {
                            assert(out@[j] == before[j]);
                        } else {
                            assert(all[k as int].executor is Run);
                        }
                    }
                }
            }
            k = k + 1;
        }
        out
    }
}

/// A task that runs `tasks` in order and sends the list of their results;
/// the tasks' own cancellation flags drop their results from the list.
pub fn join<J: Job>(tasks: Vec<Task<J>>) -> (r: Task<Joined<J>>)
    ensures
        r.executor is Run,
        r.executor->Run_0.tasks() == tasks@,
        r.cancel_flag is None,
{
    Task { executor: Executor::Run(Joined { tasks }), cancel_flag: None }
}

} // verus!
