//! A bridge between asynchronous tasks and a world that only one accessor
//! may touch at a time.
//!
//! Tasks hold a [`TaskContext`] and submit jobs through it. The host calls
//! [`run_async_jobs`] once per tick: it takes the jobs that are queued at
//! that moment and runs them one after the other against the world. Each
//! submission returns a [`WithWorld`], which resolves to the job's result
//! after the tick that ran it.
use crate::job::Job;
use crate::job::ResultJob;
use bevy_ecs::resource::Resource;
use bevy_ecs::world::World;
use core::future::Future;
use core::pin::Pin;
use core::task::Context;
use core::task::Poll;
use tokio::sync::mpsc;
use tokio::sync::oneshot;
use vstd::prelude::*;

pub mod async_asset;
pub mod channels;
pub mod common_uses;
pub mod job;
pub mod message_stream;
pub mod time;
pub mod world;

verus! {

/// The queue's consumer is gone: the job was not accepted and will never
/// run. This is a fault in how the host was set up, not a condition to
/// recover from.
#[derive(Debug, Clone, Copy, PartialEq, Eq, Structural)]
pub struct QueueClosed;

/// Owns the queue of jobs that wait for exclusive access to the world.
/// [`AsyncWork::create_task_context`] hands out the capability to add to it.
///
/// The queue has no bound: jobs that are submitted faster than
/// [`run_async_jobs`] is called pile up.
pub struct AsyncWork {
    work_tx: mpsc::UnboundedSender<Box<dyn Job>>,
    work_rx: mpsc::UnboundedReceiver<Box<dyn Job>>,
}

impl Resource for AsyncWork {}

impl Default for AsyncWork {
    /// A new, empty queue.
    fn default() -> Self {
        let (work_tx, work_rx) = mpsc::unbounded_channel();
        AsyncWork { work_tx, work_rx }
    }
}

impl AsyncWork {
    /// The producer end of the queue, of which every [`TaskContext`] of this
    /// queue holds a clone.
    pub closed spec fn producer(self) -> mpsc::UnboundedSender<Box<dyn Job>> {
        self.work_tx
    }

    /// The consumer end of the queue, which only [`AsyncWork::take_pending`]
    /// reads.
    pub closed spec fn consumer(self) -> mpsc::UnboundedReceiver<Box<dyn Job>> {
        self.work_rx
    }

    /// A handle that submits jobs to this queue: it holds a clone of the
    /// queue's producer end, and nothing else. The jobs run the next time
    /// [`run_async_jobs`] does.
    pub fn create_task_context(&self) -> (context: TaskContext)
        ensures
            context.queue() == self.producer(),
    {
        TaskContext { work_queue: self.work_tx.clone() }
    }

    /// Adds what the queue handed out to the jobs taken so far. A job goes
    /// behind them, and the taking goes on; a queue that is empty or closed
    /// adds nothing and ends the taking.
    pub fn taken(
        jobs: &mut Vec<Box<dyn Job>>,
        received: Result<Box<dyn Job>, mpsc::error::TryRecvError>,
    ) -> (more: bool)
        ensures
            more == received is Ok,
            received matches Ok(job) ==> final(jobs)@ == old(jobs)@.push(job),
            received is Err ==> final(jobs)@ == old(jobs)@,
    {
        match received {
            Ok(job) => {
                jobs.push(job);
                true
            },
            Err(_) => false,
        }
    }

    /// Takes the jobs that are queued at the time of the call, oldest first.
    /// What is submitted later, also while these jobs run, stays in the queue
    /// for the next call.
    pub fn take_pending(&mut self) -> (jobs: Vec<Box<dyn Job>>) {
        let waiting = self.work_rx.len();
        let mut jobs: Vec<Box<dyn Job>> = Vec::new();
        let mut asked: usize = 0;
        while asked < waiting
            invariant
                asked <= waiting,
            decreases waiting - asked,
        {
            if !Self::taken(&mut jobs, self.work_rx.try_recv()) {
                return jobs;
            }
            asked = asked + 1;
        }
        jobs
    }
}

/// `World::get_resource_or_init`, followed by `Mut::into_inner`: the
/// [`AsyncWork`] of this world, made with `AsyncWork::default()` first where
/// the world holds none. Nothing is claimed of what it holds, nor of the
/// world afterwards.
#[verifier::external_body]
fn async_work(world: &mut World) -> (work: &mut AsyncWork) {
    world.get_resource_or_init::<AsyncWork>().into_inner()
}

/// The drain step: runs the jobs that were submitted through a
/// [`TaskContext`] and are queued at the time of the call, one at a time and
/// in the order in which the queue accepted them. A job submitted while
/// these run waits for the next call.
///
/// The list of jobs is taken from the queue before the first of them runs,
/// and nothing but that list is run: each job of it once, each on the world
/// that the job before it left, and the world at the end is the world that
/// the last of them left.
pub fn run_async_jobs(world: &mut World)
    ensures
        exists|jobs: Seq<Box<dyn Job>>, accesses: Seq<&mut World>|
            {
                &&& accesses.len() == jobs.len()
                &&& forall|i: int|
                    0 <= i < jobs.len() ==> (#[trigger] jobs[i]).effect(accesses[i])
                &&& forall|i: int|
                    0 < i < jobs.len() ==> *(#[trigger] accesses[i]) == *final(accesses[i - 1])
                &&& jobs.len() > 0 ==> *final(world) == *final(accesses[jobs.len() - 1])
            },
{
    let jobs = async_work(world).take_pending();
    crate::job::run_jobs(jobs, world);
}

/// The capability that a task uses to reach the world: it submits jobs to the
/// queue of the [`AsyncWork`] that made it, and holds nothing else.
#[derive(Clone)]
pub struct TaskContext {
    work_queue: mpsc::UnboundedSender<Box<dyn Job>>,
}

impl TaskContext {
    /// The producer end of the queue that this context submits to.
    pub closed spec fn queue(self) -> mpsc::UnboundedSender<Box<dyn Job>> {
        self.work_queue
    }

    /// Submits `f` to run with exclusive access to the world, the next time
    /// [`run_async_jobs`] does. Jobs are not run between ticks, so small
    /// pieces of work are better submitted as one job.
    ///
    /// The submission never blocks. It is refused, with [`QueueClosed`], only
    /// when the [`AsyncWork`] that made this context is gone. Where the queue
    /// takes the job, the future that comes back has not resolved, since the
    /// job has yet to run, and it is the future of this job: the results it
    /// stands for are those that `f` may return.
    pub fn with_world<R, F>(&self, f: F) -> (submitted: Result<WithWorld<R>, QueueClosed>) where
        R: Send + 'static,
        F: FnOnce(&mut World) -> R + Send + 'static,

        requires
            forall|access: &mut World| call_requires(f, (access,)),
        ensures
            submitted matches Ok(pending) ==> {
                &&& !pending.finished()
                &&& forall|result: R| #[trigger]
                    pending.may_return(result) <==> exists|access: &mut World|
                        call_ensures(f, (access,), result)
            },
    {
        WithWorld::new(f, &self.work_queue)
    }
}

/// The pending result of one submitted job. Awaiting it suspends the task
/// until the tick that runs the job; dropping or detaching it lets the job
/// run without anyone waiting for its result.
///
/// It resolves once. It holds the receiver of the job's result until a poll
/// finds it ready, and nothing after that.
#[must_use]
#[verifier::reject_recursive_types(R)]
pub struct WithWorld<R> {
    receiver: Option<oneshot::Receiver<R>>,
    results: Ghost<spec_fn(R) -> bool>,
}

impl<R: Send + 'static> WithWorld<R> {
    fn new<F>(f: F, work_queue: &mpsc::UnboundedSender<Box<dyn Job>>) -> (submitted: Result<
        Self,
        QueueClosed,
    >) where F: FnOnce(&mut World) -> R + Send + 'static
        requires
            forall|access: &mut World| call_requires(f, (access,)),
        ensures
            submitted matches Ok(pending) ==> {
                &&& !pending.finished()
                &&& forall|result: R| #[trigger]
                    pending.may_return(result) <==> exists|access: &mut World|
                        call_ensures(f, (access,), result)
            },
    {
        let ghost results = |result: R| exists|access: &mut World| call_ensures(f, (access,), result);
        let (tx, rx) = oneshot::channel();
        let job: Box<dyn Job> = Box::new(ResultJob::new(f, tx));
        match Self::submitted(work_queue.send(job), rx) {
            Ok(pending) => Ok(WithWorld { receiver: pending.receiver, results: Ghost(results) }),
            Err(closed) => Err(closed),
        }
    }

    /// What a submission comes to, given the queue's answer: the pending
    /// result over `receiver` where the queue took the job, and
    /// [`QueueClosed`] where it handed the job back. The future knows the
    /// receiver only, not the job: it stands for every result.
    pub fn submitted(
        sent: Result<(), mpsc::error::SendError<Box<dyn Job>>>,
        receiver: oneshot::Receiver<R>,
    ) -> (pending: Result<Self, QueueClosed>)
        ensures
            sent is Ok ==> pending is Ok && pending->Ok_0.receiver() == Some(receiver),
            sent is Err ==> pending is Err,
    {
        match sent {
            Ok(_) => Ok(WithWorld { receiver: Some(receiver), results: Ghost(|result: R| true) }),
            Err(_) => Err(QueueClosed),
        }
    }
}

impl<R> WithWorld<R> {
    /// The one-shot receiver on which the job's result arrives, as long as
    /// no poll has found it ready.
    pub closed spec fn receiver(self) -> Option<oneshot::Receiver<R>> {
        self.receiver
    }

    /// The results that this future stands for: those that its job may
    /// give. A future that was made without a job stands for every result.
    pub closed spec fn results(self) -> spec_fn(R) -> bool {
        self.results@
    }

    /// The job of this future may give `result`.
    pub open spec fn may_return(self, result: R) -> bool {
        (self.results())(result)
    }

    /// A poll has found the job's result, or found that there will be none.
    pub open spec fn finished(self) -> bool {
        self.receiver() is None
    }

    /// Gives up the result and lets the job run on its own. This suits a job
    /// that only changes the world: many of them can be queued at once and
    /// run in the same tick.
    pub fn detach(self) {
    }

    /// Asks whether the job has run: ready with its result once it has,
    /// ready with nothing if the job was dropped before it could run, and
    /// pending, with the task's waker registered, until then.
    ///
    /// The future resolves once. The poll that is ready finishes it, and
    /// every poll after that is ready with nothing; a poll that is pending
    /// leaves it unfinished.
    pub fn poll_result(&mut self, cx: &mut Context<'_>) -> (polled: Poll<Option<R>>)
        ensures
            final(self).results() == old(self).results(),
            old(self).finished() ==> polled == Poll::Ready(None::<R>) && final(self).finished(),
            !old(self).finished() ==> (polled is Ready <==> final(self).finished()),
    {
        match self.receiver.take() {
            None => Poll::Ready(None),
            Some(mut receiver) => {
                match crate::channels::poll_oneshot(&mut receiver, cx) {
                    Poll::Ready(result) => Poll::Ready(result),
                    Poll::Pending => {
                        self.receiver = Some(receiver);
                        Poll::Pending
                    },
                }
            },
        }
    }

    /// What a poll of the future comes to, given the poll of its job: the
    /// future resolves with the job's result, and with nothing else.
    pub fn resolved(job: Poll<Option<R>>) -> (polled: Poll<R>)
        ensures
            polled == (match job {
                Poll::Ready(Some(result)) => Poll::Ready(result),
                _ => Poll::Pending,
            }),
    {
        match job {
            Poll::Ready(Some(result)) => Poll::Ready(result),
            _ => Poll::Pending,
        }
    }
}

impl<R> Unpin for WithWorld<R> {}

/// `Pin::get_mut` on a pinned [`WithWorld`], which may be moved: the
/// reference inside the pin.
#[verifier::external_body]
fn unpinned<'a, R>(pinned: Pin<&'a mut WithWorld<R>>) -> (this: &'a mut WithWorld<R>) {
    Pin::get_mut(pinned)
}

impl<R> Future for WithWorld<R> {
    type Output = R;

    /// Resolves to the job's result once [`run_async_jobs`] has run the job.
    /// A job that was dropped before it could run never resolves.
    fn poll(self: Pin<&mut Self>, cx: &mut Context<'_>) -> (polled: Poll<R>) {
        Self::resolved(unpinned(self).poll_result(cx))
    }
}

} // verus!
