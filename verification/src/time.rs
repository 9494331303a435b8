//! Timers that are stepped once per tick and resolved through one-shot
//! signals.
//!
//! The registry keeps durations and points in time as whole nanoseconds. A
//! relative timer counts its remaining time down by each tick's delta; an
//! absolute timer waits for the time elapsed since startup to reach its
//! deadline.
use crate::QueueClosed;
use crate::TaskContext;
use bevy_ecs::resource::Resource;
use bevy_ecs::world::World;
use core::future::Future;
use core::pin::Pin;
use core::task::Context;
use core::task::Poll;
use core::time::Duration;
use tokio::sync::oneshot;
use vstd::prelude::*;

verus! {

/// A relative timer as contracts see it: the time that remains, and the
/// sender of its completion signal.
pub type Countdown = (nat, oneshot::Sender<()>);

/// An absolute timer as contracts see it: the deadline, as time elapsed since
/// startup, and the sender of its completion signal.
pub type Deadline = (nat, oneshot::Sender<()>);

/// A relative timer: fires once the ticks' deltas have used up `remaining`.
pub struct TimeoutAfter {
    remaining: u128,
    signal: oneshot::Sender<()>,
}

/// An absolute timer: fires once the time elapsed since startup has reached
/// `deadline`.
pub struct TimeoutAt {
    deadline: u128,
    signal: oneshot::Sender<()>,
}

impl View for TimeoutAfter {
    type V = Countdown;

    closed spec fn view(&self) -> Countdown {
        (self.remaining as nat, self.signal)
    }
}

impl View for TimeoutAt {
    type V = Deadline;

    closed spec fn view(&self) -> Deadline {
        (self.deadline as nat, self.signal)
    }
}

impl TimeoutAfter {
    /// A timer that fires `signal` after `remaining` nanoseconds of ticks.
    pub fn new(remaining: u128, signal: oneshot::Sender<()>) -> (timer: Self)
        ensures
            timer@ == (remaining as nat, signal),
    {
        TimeoutAfter { remaining, signal }
    }

    /// Fires the signal. A waiter that is gone makes no difference.
    pub fn fire(self) {
        let _ = self.signal.send(());
    }
}

impl TimeoutAt {
    /// A timer that fires `signal` once `deadline` nanoseconds have elapsed
    /// since startup.
    pub fn new(deadline: u128, signal: oneshot::Sender<()>) -> (timer: Self)
        ensures
            timer@ == (deadline as nat, signal),
    {
        TimeoutAt { deadline, signal }
    }

    /// Fires the signal. A waiter that is gone makes no difference.
    pub fn fire(self) {
        let _ = self.signal.send(());
    }
}

/// The relative timers that a tick of `delta` leaves registered, in their
/// order: those with more than `delta` remaining, each with `delta` less.
pub open spec fn after_tick(timers: Seq<Countdown>, delta: nat) -> Seq<Countdown>
    decreases timers.len(),
{
    if timers.len() == 0 {
        Seq::empty()
    } else {
        let earlier = after_tick(timers.drop_last(), delta);
        let timer = timers.last();
        if timer.0 <= delta {
            earlier
        } else {
            earlier.push(((timer.0 - delta) as nat, timer.1))
        }
    }
}

/// The relative timers that a tick of `delta` fires, in their order: those
/// with at most `delta` remaining.
pub open spec fn due_after(timers: Seq<Countdown>, delta: nat) -> Seq<Countdown>
    decreases timers.len(),
{
    if timers.len() == 0 {
        Seq::empty()
    } else {
        let earlier = due_after(timers.drop_last(), delta);
        let timer = timers.last();
        if timer.0 <= delta {
            earlier.push(timer)
        } else {
            earlier
        }
    }
}

/// The absolute timers that a tick at `elapsed` leaves registered, in their
/// order and unchanged: those whose deadline lies after `elapsed`.
pub open spec fn at_tick(timers: Seq<Deadline>, elapsed: nat) -> Seq<Deadline>
    decreases timers.len(),
{
    if timers.len() == 0 {
        Seq::empty()
    } else {
        let earlier = at_tick(timers.drop_last(), elapsed);
        let timer = timers.last();
        if timer.0 <= elapsed {
            earlier
        } else {
            earlier.push(timer)
        }
    }
}

/// The absolute timers that a tick at `elapsed` fires, in their order: those
/// whose deadline `elapsed` has reached.
pub open spec fn due_at(timers: Seq<Deadline>, elapsed: nat) -> Seq<Deadline>
    decreases timers.len(),
{
    if timers.len() == 0 {
        Seq::empty()
    } else {
        let earlier = due_at(timers.drop_last(), elapsed);
        let timer = timers.last();
        if timer.0 <= elapsed {
            earlier.push(timer)
        } else {
            earlier
        }
    }
}

/// Every relative timer either fires in a tick or stays: none is lost and
/// none is made. In particular no more timers fire than were registered.
pub proof fn lemma_relative_timers_fire_or_stay(timers: Seq<Countdown>, delta: nat)
    ensures
        due_after(timers, delta).len() + after_tick(timers, delta).len() == timers.len(),
    decreases timers.len(),
{
    if timers.len() > 0 {
        lemma_relative_timers_fire_or_stay(timers.drop_last(), delta);
    }
}

/// A relative timer fires in a tick only if the tick uses up what remains of
/// it, and a timer that stays had more than that remaining: it is one of the
/// timers before the tick, with `delta` less.
pub proof fn lemma_relative_timers_fire_when_used_up(timers: Seq<Countdown>, delta: nat)
    ensures
        forall|i: int|
            0 <= i < due_after(timers, delta).len() ==> {
                &&& (#[trigger] due_after(timers, delta)[i]).0 <= delta
                &&& timers.contains(due_after(timers, delta)[i])
            },
        forall|i: int|
            0 <= i < after_tick(timers, delta).len() ==> timers.contains(
                (
                    (#[trigger] after_tick(timers, delta)[i]).0 + delta,
                    after_tick(timers, delta)[i].1,
                ),
            ),
    decreases timers.len(),
{
    if timers.len() > 0 {
        let shorter = timers.drop_last();
        lemma_relative_timers_fire_when_used_up(shorter, delta);
        let due = due_after(timers, delta);
        let stay = after_tick(timers, delta);
        assert forall|i: int| 0 <= i < due.len() implies (#[trigger] due[i]).0 <= delta
            && timers.contains(due[i]) by {
            if i < due_after(shorter, delta).len() {
                let at = choose|at: int| 0 <= at < shorter.len() && shorter[at] == due[i];
                assert(timers[at] == due[i]);
            }
        }
        assert forall|i: int| 0 <= i < stay.len() implies timers.contains(
            ((#[trigger] stay[i]).0 + delta, stay[i].1),
        ) by {
            let was = (stay[i].0 + delta, stay[i].1);
            if i < after_tick(shorter, delta).len() {
                let at = choose|at: int| 0 <= at < shorter.len() && shorter[at] == was;
                assert(timers[at] == was);
            }
        }
    }
}

/// Only the sum of the deltas counts: two ticks in a row leave the relative
/// timers that one tick of both deltas together leaves. So a timer is still
/// registered after any number of ticks exactly if their deltas add up to
/// less than its duration, and it fires in the tick that makes the sum reach
/// the duration, never in an earlier one.
pub proof fn lemma_relative_ticks_add_up(timers: Seq<Countdown>, first: nat, second: nat)
    ensures
        after_tick(after_tick(timers, first), second) == after_tick(timers, first + second),
    decreases timers.len(),
{
    if timers.len() > 0 {
        let timer = timers.last();
        lemma_relative_ticks_add_up(timers.drop_last(), first, second);
        if timer.0 > first {
            let stayed = ((timer.0 - first) as nat, timer.1);
            let earlier = after_tick(timers.drop_last(), first);
            assert(earlier.push(stayed).drop_last() == earlier);
        }
    }
}

/// A relative timer of `duration`, alone in the registry, is gone after a
/// tick exactly if the tick's delta reaches `duration`; else it stays with
/// the rest of its time.
pub proof fn lemma_relative_timer_fires_on_reaching_duration(
    duration: nat,
    signal: oneshot::Sender<()>,
    delta: nat,
)
    ensures
        duration <= delta ==> after_tick(seq![(duration, signal)], delta) == Seq::<
            Countdown,
        >::empty() && due_after(seq![(duration, signal)], delta) == seq![(duration, signal)],
        duration > delta ==> after_tick(seq![(duration, signal)], delta) == seq![
            ((duration - delta) as nat, signal),
        ] && due_after(seq![(duration, signal)], delta) == Seq::<Countdown>::empty(),
{
    let alone = seq![(duration, signal)];
    assert(after_tick(alone.drop_last(), delta) == Seq::<Countdown>::empty());
    assert(due_after(alone.drop_last(), delta) == Seq::<Countdown>::empty());
}

/// Every absolute timer either fires in a tick or stays as it is.
pub proof fn lemma_absolute_timers_fire_or_stay(timers: Seq<Deadline>, elapsed: nat)
    ensures
        due_at(timers, elapsed).len() + at_tick(timers, elapsed).len() == timers.len(),
        forall|i: int|
            0 <= i < due_at(timers, elapsed).len() ==> {
                &&& (#[trigger] due_at(timers, elapsed)[i]).0 <= elapsed
                &&& timers.contains(due_at(timers, elapsed)[i])
            },
        forall|i: int|
            0 <= i < at_tick(timers, elapsed).len() ==> {
                &&& (#[trigger] at_tick(timers, elapsed)[i]).0 > elapsed
                &&& timers.contains(at_tick(timers, elapsed)[i])
            },
    decreases timers.len(),
{
    if timers.len() > 0 {
        let shorter = timers.drop_last();
        lemma_absolute_timers_fire_or_stay(shorter, elapsed);
        let due = due_at(timers, elapsed);
        let stay = at_tick(timers, elapsed);
        assert forall|i: int| 0 <= i < due.len() implies (#[trigger] due[i]).0 <= elapsed
            && timers.contains(due[i]) by {
            if i < due_at(shorter, elapsed).len() {
                let at = choose|at: int| 0 <= at < shorter.len() && shorter[at] == due[i];
                assert(timers[at] == due[i]);
            }
        }
        assert forall|i: int| 0 <= i < stay.len() implies (#[trigger] stay[i]).0 > elapsed
            && timers.contains(stay[i]) by {
            if i < at_tick(shorter, elapsed).len() {
                let at = choose|at: int| 0 <= at < shorter.len() && shorter[at] == stay[i];
                assert(timers[at] == stay[i]);
            }
        }
    }
}

/// An absolute timer fires exactly once. What a tick at `earlier` leaves
/// holds no timer whose deadline that tick had reached, so a tick at `later`
/// fires only timers whose deadline lies after `earlier`, and none a second
/// time; and with the clock not running backwards, the two ticks leave what
/// the later one alone leaves.
pub proof fn lemma_absolute_timer_fires_once(timers: Seq<Deadline>, earlier: nat, later: nat)
    ensures
        forall|i: int|
            0 <= i < due_at(at_tick(timers, earlier), later).len() ==> (#[trigger] due_at(
                at_tick(timers, earlier),
                later,
            )[i]).0 > earlier,
        due_at(at_tick(timers, earlier), earlier) == Seq::<Deadline>::empty(),
        earlier <= later ==> at_tick(at_tick(timers, earlier), later) == at_tick(timers, later),
{
    let left = at_tick(timers, earlier);
    lemma_absolute_timers_fire_or_stay(timers, earlier);
    lemma_absolute_timers_fire_or_stay(left, later);
    assert forall|i: int| 0 <= i < due_at(left, later).len() implies (#[trigger] due_at(
        left,
        later,
    )[i]).0 > earlier by {
        let fired = due_at(left, later)[i];
        let at = choose|at: int| 0 <= at < left.len() && left[at] == fired;
        assert(left[at].0 > earlier);
    }
    lemma_absolute_timers_fire_or_stay(left, earlier);
    if due_at(left, earlier).len() > 0 {
        let fired = due_at(left, earlier)[0];
        let at = choose|at: int| 0 <= at < left.len() && left[at] == fired;
        assert(left[at].0 > earlier);
    }
    if earlier <= later {
        lemma_absolute_ticks_follow_the_clock(timers, earlier, later);
    }
}

/// With the clock not running backwards, two ticks in a row leave the
/// absolute timers that the later tick alone leaves.
pub proof fn lemma_absolute_ticks_follow_the_clock(timers: Seq<Deadline>, earlier: nat, later: nat)
    requires
        earlier <= later,
    ensures
        at_tick(at_tick(timers, earlier), later) == at_tick(timers, later),
    decreases timers.len(),
{
    if timers.len() > 0 {
        let timer = timers.last();
        lemma_absolute_ticks_follow_the_clock(timers.drop_last(), earlier, later);
        if timer.0 > earlier {
            let left = at_tick(timers.drop_last(), earlier);
            assert(left.push(timer).drop_last() == left);
        }
    }
}

/// The registry of the timers that wait for a tick.
pub struct Timers {
    after: Vec<TimeoutAfter>,
    at: Vec<TimeoutAt>,
}

impl Resource for Timers {}

impl Default for Timers {
    /// A registry without timers.
    fn default() -> (timers: Self)
        ensures
            timers.relative() == Seq::<Countdown>::empty(),
            timers.absolute() == Seq::<Deadline>::empty(),
    {
        Timers { after: Vec::new(), at: Vec::new() }
    }
}

impl Timers {
    /// The relative timers, oldest first.
    pub closed spec fn relative(self) -> Seq<Countdown> {
        Seq::new(self.after@.len(), |i: int| self.after@[i]@)
    }

    /// The absolute timers, oldest first.
    pub closed spec fn absolute(self) -> Seq<Deadline> {
        Seq::new(self.at@.len(), |i: int| self.at@[i]@)
    }

    /// Registers a relative timer behind those already there.
    pub fn start_after(&mut self, remaining: u128, signal: oneshot::Sender<()>)
        ensures
            final(self).relative() == old(self).relative().push((remaining as nat, signal)),
            final(self).absolute() == old(self).absolute(),
    {
        self.after.push(TimeoutAfter::new(remaining, signal));
    }

    /// Registers an absolute timer behind those already there.
    pub fn start_at(&mut self, deadline: u128, signal: oneshot::Sender<()>)
        ensures
            final(self).absolute() == old(self).absolute().push((deadline as nat, signal)),
            final(self).relative() == old(self).relative(),
    {
        self.at.push(TimeoutAt::new(deadline, signal));
    }

    /// The number of relative timers that wait.
    pub fn relative_len(&self) -> (len: usize)
        ensures
            len == self.relative().len(),
    {
        self.after.len()
    }

    /// The number of absolute timers that wait.
    pub fn absolute_len(&self) -> (len: usize)
        ensures
            len == self.absolute().len(),
    {
        self.at.len()
    }

    /// Takes out the relative timers that a tick of `delta` nanoseconds
    /// fires, in their order, and counts the others down by `delta`.
    pub fn take_due_after(&mut self, delta: u128) -> (due: Vec<TimeoutAfter>)
        ensures
            final(self).relative() == after_tick(old(self).relative(), delta as nat),
            final(self).absolute() == old(self).absolute(),
            due@.len() == due_after(old(self).relative(), delta as nat).len(),
            forall|i: int|
                0 <= i < due@.len() ==> (#[trigger] due@[i])@ == due_after(
                    old(self).relative(),
                    delta as nat,
                )[i],
    {
        let mut waiting: Vec<TimeoutAfter> = Vec::new();
        core::mem::swap(&mut waiting, &mut self.after);
        let ghost before = Seq::new(waiting@.len(), |i: int| waiting@[i]@);
        let ghost total = waiting@;
        let mut kept: Vec<TimeoutAfter> = Vec::new();
        let mut due: Vec<TimeoutAfter> = Vec::new();
        for timer in it: waiting
            invariant
                it.seq() == total,
                before.len() == total.len(),
                forall|i: int| 0 <= i < total.len() ==> before[i] == (#[trigger] total[i])@,
                Seq::new(kept@.len(), |i: int| kept@[i]@) == after_tick(
                    before.take(it.index() as int),
                    delta as nat,
                ),
                Seq::new(due@.len(), |i: int| due@[i]@) == due_after(
                    before.take(it.index() as int),
                    delta as nat,
                ),
        {
            proof {
                let n = it.index() as int;
                assert(before.take(n + 1).drop_last() == before.take(n));
            }
            if timer.remaining <= delta {
                due.push(timer);
            } else {
                let TimeoutAfter { remaining, signal } = timer;
                kept.push(TimeoutAfter::new(remaining - delta, signal));
            }
        }
        proof {
            assert(before.take(total.len() as int) == before);
            let found = Seq::new(due@.len(), |i: int| due@[i]@);
            assert forall|i: int| 0 <= i < due@.len() implies (#[trigger] due@[i])@ == due_after(
                before,
                delta as nat,
            )[i] by {
                assert(found[i] == due@[i]@);
            }
        }
        self.after = kept;
        due
    }

    /// Takes out the absolute timers that a tick at `elapsed` nanoseconds
    /// since startup fires, in their order, and leaves the others as they
    /// are.
    pub fn take_due_at(&mut self, elapsed: u128) -> (due: Vec<TimeoutAt>)
        ensures
            final(self).absolute() == at_tick(old(self).absolute(), elapsed as nat),
            final(self).relative() == old(self).relative(),
            due@.len() == due_at(old(self).absolute(), elapsed as nat).len(),
            forall|i: int|
                0 <= i < due@.len() ==> (#[trigger] due@[i])@ == due_at(
                    old(self).absolute(),
                    elapsed as nat,
                )[i],
    {
        let mut waiting: Vec<TimeoutAt> = Vec::new();
        core::mem::swap(&mut waiting, &mut self.at);
        let ghost before = Seq::new(waiting@.len(), |i: int| waiting@[i]@);
        let ghost total = waiting@;
        let mut kept: Vec<TimeoutAt> = Vec::new();
        let mut due: Vec<TimeoutAt> = Vec::new();
        for timer in it: waiting
            invariant
                it.seq() == total,
                before.len() == total.len(),
                forall|i: int| 0 <= i < total.len() ==> before[i] == (#[trigger] total[i])@,
                Seq::new(kept@.len(), |i: int| kept@[i]@) == at_tick(
                    before.take(it.index() as int),
                    elapsed as nat,
                ),
                Seq::new(due@.len(), |i: int| due@[i]@) == due_at(
                    before.take(it.index() as int),
                    elapsed as nat,
                ),
        {
            proof {
                let n = it.index() as int;
                assert(before.take(n + 1).drop_last() == before.take(n));
            }
            if timer.deadline <= elapsed {
                due.push(timer);
            } else {
                kept.push(timer);
            }
        }
        proof {
            assert(before.take(total.len() as int) == before);
            let found = Seq::new(due@.len(), |i: int| due@[i]@);
            assert forall|i: int| 0 <= i < due@.len() implies (#[trigger] due@[i])@ == due_at(
                before,
                elapsed as nat,
            )[i] by {
                assert(found[i] == due@[i]@);
            }
        }
        self.at = kept;
        due
    }
}

/// Steps the relative timers by one tick of `delta` nanoseconds. A timer
/// with at most `delta` remaining is removed from the registry and its signal
/// is fired, once; a waiter that is gone makes no difference. Every other
/// timer stays, with `delta` less remaining. Returns how many fired.
pub fn advance_timeout_after(timers: &mut Timers, delta: u128) -> (fired: usize)
    ensures
        final(timers).relative() == after_tick(old(timers).relative(), delta as nat),
        final(timers).absolute() == old(timers).absolute(),
        fired == due_after(old(timers).relative(), delta as nat).len(),
{
    let due = timers.take_due_after(delta);
    let fired = due.len();
    for timer in due {
        timer.fire();
    }
    fired
}

/// Steps the absolute timers by one tick at `elapsed` nanoseconds since
/// startup. A timer whose deadline `elapsed` has reached is removed from the
/// registry and its signal is fired, once; a waiter that is gone makes no
/// difference. Every other timer stays as it is. Returns how many fired.
pub fn advance_timeout_at(timers: &mut Timers, elapsed: u128) -> (fired: usize)
    ensures
        final(timers).absolute() == at_tick(old(timers).absolute(), elapsed as nat),
        final(timers).relative() == old(timers).relative(),
        fired == due_at(old(timers).absolute(), elapsed as nat).len(),
{
    let due = timers.take_due_at(elapsed);
    let fired = due.len();
    for timer in due {
        timer.fire();
    }
    fired
}

/// `World::get_resource_or_init`, followed by `Mut::into_inner`: the
/// [`Timers`] of this world, made with `Timers::default()` first where the
/// world holds none. Nothing is claimed of what it holds, nor of the world
/// afterwards.
#[verifier::external_body]
fn timers_of(world: &mut World) -> (timers: &mut Timers) {
    world.get_resource_or_init::<Timers>().into_inner()
}

/// A wait for a timer to fire. It holds the receiver of the timer's signal
/// until a poll finds that the wait is over, and nothing after that.
pub struct Sleep(Option<oneshot::Receiver<()>>);

impl Sleep {
    /// The one-shot receiver on which the timer's signal arrives, as long as
    /// no poll has found the wait over.
    pub closed spec fn receiver(self) -> Option<oneshot::Receiver<()>> {
        self.0
    }

    /// A poll has found the wait over.
    pub open spec fn ended(self) -> bool {
        self.receiver() is None
    }

    /// What a poll of the wait comes to, given the poll of its receiver: the
    /// wait is over once the receiver is ready, with the signal or with the
    /// news that the timer is gone, and goes on while it is pending.
    pub fn woken(signal: Poll<Option<()>>) -> (polled: Poll<()>)
        ensures
            polled == (match signal {
                Poll::Ready(_) => Poll::Ready(()),
                Poll::Pending => Poll::Pending,
            }),
    {
        match signal {
            Poll::Ready(_) => Poll::Ready(()),
            Poll::Pending => Poll::Pending,
        }
    }

    /// Asks whether the wait is over. While it is not, the task's waker is
    /// registered with the timer's signal.
    ///
    /// The poll that is ready ends the wait, and every poll after that is
    /// ready as well; a poll that is pending leaves the wait as it is.
    pub fn poll_signal(&mut self, cx: &mut Context<'_>) -> (polled: Poll<()>)
        ensures
            old(self).ended() ==> polled == Poll::Ready(()) && final(self).ended(),
            !old(self).ended() ==> (polled is Ready <==> final(self).ended()),
    {
        match self.0.take() {
            None => Poll::Ready(()),
            Some(mut receiver) => {
                let polled = Self::woken(crate::channels::poll_oneshot(&mut receiver, cx));
                match polled {
                    Poll::Ready(over) => Poll::Ready(over),
                    Poll::Pending => {
                        self.0 = Some(receiver);
                        Poll::Pending
                    },
                }
            },
        }
    }
}

/// `Pin::get_mut` on a pinned [`Sleep`], which may be moved: the reference
/// inside the pin.
#[verifier::external_body]
fn unpinned<'a>(pinned: Pin<&'a mut Sleep>) -> (this: &'a mut Sleep) {
    Pin::get_mut(pinned)
}

impl Future for Sleep {
    type Output = ();

    /// Resolves once the timer has fired, or is gone.
    fn poll(self: Pin<&mut Self>, cx: &mut Context<'_>) -> (polled: Poll<()>) {
        unpinned(self).poll_signal(cx)
    }
}

/// Waiting on the host's tick clock.
pub trait TimingTaskExt {
    /// A wait that ends with the first tick by which the ticks' deltas,
    /// counted from the tick that registers the timer, add up to `duration`.
    /// It is refused only when the queue is gone. A wait that is granted
    /// holds the receiver of the timer's signal, and no poll has found it
    /// over yet, however short the duration.
    fn sleep(&self, duration: Duration) -> (waiting: Result<Sleep, QueueClosed>)
        ensures
            waiting matches Ok(sleep) ==> !sleep.ended(),
    ;

    /// A wait that ends with the first tick at which `elapsed_since_startup`
    /// has passed since startup. It is refused only when the queue is gone. A
    /// wait that is granted holds the receiver of the timer's signal, and no
    /// poll has found it over yet, also where the deadline has passed.
    fn sleep_until(&self, elapsed_since_startup: Duration) -> (waiting: Result<Sleep, QueueClosed>)
        ensures
            waiting matches Ok(sleep) ==> !sleep.ended(),
    ;
}

impl TimingTaskExt for TaskContext {
    fn sleep(&self, duration: Duration) -> (waiting: Result<Sleep, QueueClosed>) {
        let (tx, rx) = oneshot::channel();
        let remaining = duration.as_nanos();
        let register = move |world: &mut World|
            {
                timers_of(world).start_after(remaining, tx);
            };
        match self.with_world(register) {
            Ok(registration) => {
                registration.detach();
                Ok(Sleep(Some(rx)))
            },
            Err(closed) => Err(closed),
        }
    }

    fn sleep_until(&self, elapsed_since_startup: Duration) -> (waiting: Result<
        Sleep,
        QueueClosed,
    >) {
        let (tx, rx) = oneshot::channel();
        let deadline = elapsed_since_startup.as_nanos();
        let register = move |world: &mut World|
            {
                timers_of(world).start_at(deadline, tx);
            };
        match self.with_world(register) {
            Ok(registration) => {
                registration.detach();
                Ok(Sleep(Some(rx)))
            },
            Err(closed) => Err(closed),
        }
    }
}

} // verus!
