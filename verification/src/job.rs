//! Jobs: single-use requests for exclusive access to the world.
use bevy_ecs::world::World;
use tokio::sync::oneshot;
use vstd::prelude::*;

verus! {

/// A unit of work that needs the world to itself. It is owned by the queue
/// until the drain step runs it, and running consumes it.
pub trait Job: Send {
    /// What the job may do with one exclusive borrow of the world: `*access`
    /// is the world it finds, `*final(access)` the world it leaves.
    spec fn effect(&self, access: &mut World) -> bool;

    /// Runs the job: the world goes from `*old(world)` to `*final(world)` by
    /// one access that meets `effect`.
    fn run(self: Box<Self>, world: &mut World)
        ensures
            exists|access: &mut World|
                {
                    &&& *access == *old(world)
                    &&& *final(access) == *final(world)
                    &&& self.effect(access)
                },
    ;
}

/// A closure over the world together with the sender that carries its result
/// back to whoever asked.
#[verifier::reject_recursive_types(R)]
pub struct ResultJob<R, F: FnOnce(&mut World) -> R> {
    f: F,
    tx: oneshot::Sender<R>,
}

impl<R, F: FnOnce(&mut World) -> R> ResultJob<R, F> {
    /// The closure may be called on every world.
    #[verifier::type_invariant]
    spec fn callable(self) -> bool {
        forall|access: &mut World| call_requires(self.f, (access,))
    }

    /// The closure that the job runs.
    pub closed spec fn closure(self) -> F {
        self.f
    }

    /// The sender that carries the closure's result to whoever asked.
    pub closed spec fn sender(self) -> oneshot::Sender<R> {
        self.tx
    }

    /// Pairs a closure with the sender for its result.
    pub fn new(f: F, tx: oneshot::Sender<R>) -> (job: Self)
        requires
            forall|access: &mut World| call_requires(f, (access,)),
        ensures
            job.closure() == f,
            job.sender() == tx,
    {
        ResultJob { f, tx }
    }
}

impl<R: Send, F: FnOnce(&mut World) -> R + Send> Job for ResultJob<R, F> {
    /// The closure ran on the access, whatever became of its result.
    open spec fn effect(&self, access: &mut World) -> bool {
        exists|result: R| call_ensures(self.closure(), (access,), result)
    }

    /// Calls the closure and sends what it returns. A receiver that is gone
    /// is no error: the closure has run, and its result is dropped.
    fn run(self: Box<Self>, world: &mut World) {
        let job = *self;
        proof {
            use_type_invariant(&job);
        }
        let ghost found = *world;
        let ResultJob { f, tx } = job;
        let result = f(world);
        let _ = tx.send(result);
        proof {
            let access = choose|access: &mut World|
                *access == found && *final(access) == *world && call_ensures(f, (access,), result);
            assert(call_ensures(self.closure(), (access,), result));
            assert(self.effect(access));
        }
    }
}

/// Runs the jobs one at a time, each exactly once, in the order of the list.
///
/// The world passes through `jobs.len()` accesses: the first finds the world
/// as it was, each later one finds what the one before left, the last leaves
/// the world as it is at the end, and the access at place `i` meets the
/// effect of the job at place `i`.
pub fn run_jobs(jobs: Vec<Box<dyn Job>>, world: &mut World)
    ensures
        exists|accesses: Seq<&mut World>|
            {
                &&& accesses.len() == jobs.len()
                &&& forall|i: int|
                    0 <= i < jobs.len() ==> (#[trigger] jobs[i]).effect(accesses[i])
                &&& forall|i: int|
                    0 <= i < jobs.len() ==> *(#[trigger] accesses[i]) == (if i == 0 {
                        *old(world)
                    } else {
                        *final(accesses[i - 1])
                    })
                &&& *final(world) == (if jobs.len() == 0 {
                    *old(world)
                } else {
                    *final(accesses[jobs.len() - 1])
                })
            },
{
    let ghost all = jobs@;
    let ghost start = *world;
    proof {
        let none = Seq::<&mut World>::empty();
        assert(none.len() == 0);
    }
    for job in it: jobs
        invariant
            it.seq() == all,
            exists|accesses: Seq<&mut World>|
                {
                    &&& accesses.len() == it.index()
                    &&& forall|i: int|
                        0 <= i < it.index() ==> (#[trigger] all[i]).effect(accesses[i])
                    &&& forall|i: int|
                        0 <= i < it.index() ==> *(#[trigger] accesses[i]) == (if i == 0 {
                            start
                        } else {
                            *final(accesses[i - 1])
                        })
                    &&& *world == (if it.index() == 0 {
                        start
                    } else {
                        *final(accesses[it.index() - 1])
                    })
                },
    {
        let ghost n = it.index();
        let ghost found = *world;
        job.run(world);
        proof {
            let before = choose|accesses: Seq<&mut World>|
                {
                    &&& accesses.len() == n
                    &&& forall|i: int| 0 <= i < n ==> (#[trigger] all[i]).effect(accesses[i])
                    &&& forall|i: int|
                        0 <= i < n ==> *(#[trigger] accesses[i]) == (if i == 0 {
                            start
                        } else {
                            *final(accesses[i - 1])
                        })
                    &&& found == (if n == 0 {
                        start
                    } else {
                        *final(accesses[n - 1])
                    })
                };
            let access = choose|access: &mut World|
                *access == found && *final(access) == *world && job.effect(access);
            let after = before.push(access);
            assert(after.len() == n + 1);
        }
    }
}

} // verus!
