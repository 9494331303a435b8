//! A stream over an append-only log that the world keeps: each item comes
//! out once, in the order in which the log took it.
//!
//! The reader holds a buffer of items that it has read and not yet yielded,
//! and the cursor behind the last item read. While the buffer holds items, a
//! poll yields the oldest of them. Once it is empty, the reader hands its
//! cursor to one job that reads what the log holds behind it, and waits for
//! that job's tick; buffer and cursor come back with the job's result.
//!
//! A log may discard entries that are older than a few ticks. Entries that it
//! discards before the reader has read them never reach the stream; the
//! reader counts them, and [`MessageStream::missed`] tells how many there
//! were.
use crate::QueueClosed;
use crate::TaskContext;
use crate::WithWorld;
use bevy_ecs::world::World;
use core::pin::Pin;
use core::task::Context;
use core::task::Poll;
use futures::Stream;
use std::collections::VecDeque;
use vstd::prelude::*;

verus! {

/// What one read of a log found.
pub struct LogBatch<T> {
    /// The entries that are newer than the cursor was, oldest first.
    pub items: VecDeque<T>,
    /// How many entries newer than the cursor was the log had discarded
    /// before the read.
    pub missed: usize,
}

/// A position in a log that the world keeps. The host supplies it: it knows
/// where the log is and which entries are newer than the position.
pub trait LogCursor: Default + Send + 'static {
    /// What the log holds.
    type Item: Send + 'static;

    /// Copies out the entries that are newer than this position, counts
    /// those that the log no longer has, and moves the position behind the
    /// newest entry.
    fn read(&mut self, world: &World) -> LogBatch<Self::Item>;
}

/// `data` holds what one call of [`LogCursor::read`] returned for a cursor
/// that stood at `from`: `cursor` is the borrow of the cursor that the call
/// was given, `world` the world it read, and `batch` what it returned.
pub open spec fn is_read<C: LogCursor>(
    cursor: &mut C,
    world: &World,
    batch: LogBatch<C::Item>,
    from: C,
    data: MessageStreamData<C>,
) -> bool {
    &&& *cursor == from
    &&& call_ensures(C::read, (cursor, world), batch)
    &&& data.items() == batch.items@
    &&& data.missed() == batch.missed
}

/// What a reader keeps between polls: the items read and not yet yielded,
/// and the cursor behind the last item read.
pub struct MessageStreamData<C: LogCursor> {
    items: VecDeque<C::Item>,
    missed: usize,
    reader: C,
}

impl<C: LogCursor> Default for MessageStreamData<C> {
    /// No items, and the cursor that `C::default()` makes: the one before the
    /// log's first entry.
    fn default() -> (data: Self)
        ensures
            data.items() == Seq::<C::Item>::empty(),
            data.missed() == 0,
            call_ensures(C::default, (), data.reader()),
    {
        MessageStreamData { items: VecDeque::new(), missed: 0, reader: C::default() }
    }
}

impl<C: LogCursor> MessageStreamData<C> {
    /// The items read and not yet yielded, oldest first.
    pub closed spec fn items(self) -> Seq<C::Item> {
        self.items@
    }

    /// The entries that the last read found discarded.
    pub closed spec fn missed(self) -> nat {
        self.missed as nat
    }

    /// The cursor behind the last item read.
    pub closed spec fn reader(self) -> C {
        self.reader
    }

    /// The result of one read of the log: what the read found, and the
    /// cursor as the read left it.
    pub fn new(batch: LogBatch<C::Item>, reader: C) -> (data: Self)
        ensures
            data.items() == batch.items@,
            data.missed() == batch.missed,
            data.reader() == reader,
    {
        MessageStreamData { items: batch.items, missed: batch.missed, reader }
    }

    /// What a read job does: one read of the world's log from `reader`. The
    /// result holds what that one call of [`LogCursor::read`] returned, and
    /// the cursor as that call left it.
    pub fn read_log(reader: C, world: &World) -> (data: Self)
        ensures
            exists|cursor: &mut C, batch: LogBatch<C::Item>|
                is_read(cursor, world, batch, reader, data) && *final(cursor) == data.reader(),
    {
        let ghost from = reader;
        let mut reader = reader;
        let batch = reader.read(world);
        let data = MessageStreamData::new(batch, reader);
        proof {
            let cursor = choose|cursor: &mut C|
                *cursor == from && *final(cursor) == reader && call_ensures(
                    C::read,
                    (cursor, world),
                    batch,
                );
            assert(is_read(cursor, world, batch, from, data));
        }
        data
    }

    /// Takes the oldest item out of the buffer, if it holds one.
    pub fn next(&mut self) -> (item: Option<C::Item>)
        ensures
            final(self).reader() == old(self).reader(),
            final(self).missed() == old(self).missed(),
            old(self).items().len() == 0 ==> {
                &&& item is None
                &&& final(self).items() == old(self).items()
            },
            old(self).items().len() > 0 ==> {
                &&& item == Some(old(self).items()[0])
                &&& final(self).items() == old(self).items().skip(1)
            },
    {
        self.items.pop_front()
    }
}

/// The states of a reader: the two it moves between, and the one it ends in
/// when the scheduler is gone.
#[verifier::reject_recursive_types(C)]
pub enum MessageStreamState<C: LogCursor> {
    /// The buffer and the cursor are at hand. The buffer may be empty.
    HasItems(MessageStreamData<C>),
    /// A job is reading the log; buffer and cursor come back with its result.
    WaitingForTask(WithWorld<MessageStreamData<C>>),
    /// The reader holds nothing. Its cursor went to a read job, and the job
    /// is yet to be submitted, or the queue refused or dropped it.
    Closed,
}

impl<C: LogCursor> Default for MessageStreamState<C> {
    /// An empty buffer at hand, with the cursor that `C::default()` makes.
    fn default() -> (state: Self)
        ensures
            state is HasItems,
            state->HasItems_0.items() == Seq::<C::Item>::empty(),
            state->HasItems_0.missed() == 0,
            call_ensures(C::default, (), state->HasItems_0.reader()),
    {
        MessageStreamState::HasItems(MessageStreamData::default())
    }
}

/// What one step of a poll comes to.
#[verifier::reject_recursive_types(C)]
pub enum Step<C: LogCursor> {
    /// The poll is answered.
    Answer(Poll<Option<C::Item>>),
    /// The buffer is empty: the next read of the log starts from this cursor.
    Read(C),
}

/// The sum of two counts, as far as a `usize` can hold it.
pub open spec fn capped_sum(count: nat, more: nat) -> nat {
    if count + more <= usize::MAX {
        count + more
    } else {
        usize::MAX as nat
    }
}

/// The items of one read come out in the order of the read, each of them
/// once. A poll on a filled buffer yields its first item and leaves the rest,
/// so the poll number `i` on a buffer that started as `read` finds
/// `read.skip(i)`, yields `read[i]` and leaves `read.skip(i + 1)`; after as
/// many polls as the read had items, the buffer is empty, and the next poll
/// sends the cursor that the read left to the next read.
pub proof fn lemma_a_read_comes_out_in_order<T>(read: Seq<T>, i: int)
    requires
        0 <= i < read.len(),
    ensures
        read.skip(i).len() > 0,
        read.skip(i)[0] == read[i],
        read.skip(i).skip(1) == read.skip(i + 1),
        read.skip(read.len() as int).len() == 0,
{
}

/// A reader of the log behind a cursor of type `C`. It never ends on its
/// own: a poll reports the end only once the scheduler is gone.
#[verifier::reject_recursive_types(C)]
pub struct MessageStream<C: LogCursor> {
    cx: TaskContext,
    missed: usize,
    state: MessageStreamState<C>,
}

impl<C: LogCursor> MessageStream<C> {
    /// The handle through which the reader submits its read jobs.
    pub closed spec fn context(self) -> TaskContext {
        self.cx
    }

    /// The items that the reader holds and has not yet yielded, oldest first.
    /// While a job is reading the log there are none.
    pub closed spec fn buffered(self) -> Seq<C::Item> {
        match self.state {
            MessageStreamState::HasItems(data) => data.items(),
            _ => Seq::empty(),
        }
    }

    /// The cursor behind the last item read, while the reader holds it. A
    /// read job takes it along, and brings it back with its result.
    pub closed spec fn cursor(self) -> Option<C> {
        match self.state {
            MessageStreamState::HasItems(data) => Some(data.reader()),
            _ => None,
        }
    }

    /// The read job that the reader waits for, if it waits for one.
    pub closed spec fn awaited(self) -> Option<WithWorld<MessageStreamData<C>>> {
        match self.state {
            MessageStreamState::WaitingForTask(read) => Some(read),
            _ => None,
        }
    }

    /// A job is reading the log, and the reader waits for its result.
    pub open spec fn waiting(self) -> bool {
        self.awaited() is Some
    }

    /// The reader holds neither buffer and cursor nor a read job.
    pub closed spec fn closed(self) -> bool {
        self.state is Closed
    }

    /// The entries that the log had discarded before the reader could read
    /// them, counted over all reads so far and capped at `usize::MAX`.
    pub closed spec fn missed_so_far(self) -> nat {
        self.missed as nat
    }

    /// A reader that holds exactly one of the three: buffer and cursor, a
    /// read job, or nothing.
    pub proof fn lemma_one_state(self)
        ensures
            self.cursor() is Some ==> !self.waiting() && !self.closed(),
            self.waiting() ==> !self.closed() && self.buffered().len() == 0,
            self.closed() ==> self.buffered().len() == 0,
            self.cursor() is Some || self.waiting() || self.closed(),
    {
    }

    /// A reader with an empty buffer and the cursor that `C::default()`
    /// makes: the one before the log's first entry.
    pub fn new(cx: TaskContext) -> (stream: Self)
        ensures
            stream.context() == cx,
            stream.buffered() == Seq::<C::Item>::empty(),
            stream.missed_so_far() == 0,
            stream.cursor() matches Some(cursor) && call_ensures(C::default, (), cursor),
    {
        MessageStream { cx, missed: 0, state: MessageStreamState::default() }
    }

    /// How many entries never reached this stream because the log had
    /// discarded them before they were read.
    pub fn missed(&self) -> (missed: usize)
        ensures
            missed == self.missed_so_far(),
    {
        self.missed
    }

    /// The step on a buffer at hand. A buffer with items yields the oldest
    /// of them and keeps the rest, with the cursor as it is. An empty buffer
    /// hands the cursor out for the next read, and the reader holds nothing
    /// until that read is submitted.
    pub fn buffer_step(&mut self, data: MessageStreamData<C>) -> (step: Step<C>)
        ensures
            final(self).context() == old(self).context(),
            final(self).missed_so_far() == old(self).missed_so_far(),
            data.items().len() > 0 ==> {
                &&& step == Step::<C>::Answer(Poll::Ready(Some(data.items()[0])))
                &&& final(self).buffered() == data.items().skip(1)
                &&& final(self).cursor() == Some(data.reader())
            },
            data.items().len() == 0 ==> {
                &&& step == Step::<C>::Read(data.reader())
                &&& final(self).closed()
            },
    {
        let mut data = data;
        match data.next() {
            Some(item) => {
                self.state = MessageStreamState::HasItems(data);
                Step::Answer(Poll::Ready(Some(item)))
            },
            None => {
                self.state = MessageStreamState::Closed;
                Step::Read(data.reader)
            },
        }
    }

    /// The step on the answer of a read job to a poll. While the job has not
    /// run, the reader goes on waiting for it. A job that was dropped ends
    /// the stream. The result of a job that has run counts what the read
    /// found discarded, and becomes the buffer at hand, on which the step is
    /// that of [`MessageStream::buffer_step`]: its oldest item comes out, or,
    /// where the read found nothing, its cursor goes to the next read.
    pub fn read_step(
        &mut self,
        read: WithWorld<MessageStreamData<C>>,
        polled: Poll<Option<MessageStreamData<C>>>,
    ) -> (step: Step<C>)
        ensures
            final(self).context() == old(self).context(),
            match polled {
                Poll::Pending => {
                    &&& step == Step::<C>::Answer(Poll::Pending)
                    &&& final(self).awaited() == Some(read)
                    &&& final(self).missed_so_far() == old(self).missed_so_far()
                },
                Poll::Ready(None) => {
                    &&& step == Step::<C>::Answer(Poll::Ready(None))
                    &&& final(self).closed()
                    &&& final(self).missed_so_far() == old(self).missed_so_far()
                },
                Poll::Ready(Some(data)) => {
                    &&& final(self).missed_so_far() == capped_sum(
                        old(self).missed_so_far(),
                        data.missed(),
                    )
                    &&& data.items().len() > 0 ==> {
                        &&& step == Step::<C>::Answer(Poll::Ready(Some(data.items()[0])))
                        &&& final(self).buffered() == data.items().skip(1)
                        &&& final(self).cursor() == Some(data.reader())
                    }
                    &&& data.items().len() == 0 ==> {
                        &&& step == Step::<C>::Read(data.reader())
                        &&& final(self).closed()
                    }
                },
            },
    {
        match polled {
            Poll::Pending => {
                self.state = MessageStreamState::WaitingForTask(read);
                Step::Answer(Poll::Pending)
            },
            Poll::Ready(None) => {
                self.state = MessageStreamState::Closed;
                Step::Answer(Poll::Ready(None))
            },
            Poll::Ready(Some(data)) => {
                if data.missed <= usize::MAX - self.missed {
                    self.missed = self.missed + data.missed;
                } else {
                    self.missed = usize::MAX;
                }
                self.buffer_step(data)
            },
        }
    }

    /// The step on the queue's answer to the submission of a read job. The
    /// reader waits for a job that the queue took, and the poll is pending. A
    /// job that the queue refused ends the stream: its cursor is lost with
    /// it, and the reader holds nothing.
    pub fn submit_step(
        &mut self,
        submitted: Result<WithWorld<MessageStreamData<C>>, QueueClosed>,
    ) -> (polled: Poll<Option<C::Item>>)
        ensures
            final(self).context() == old(self).context(),
            final(self).missed_so_far() == old(self).missed_so_far(),
            submitted matches Ok(read) ==> {
                &&& polled == Poll::<Option<C::Item>>::Pending
                &&& final(self).awaited() == Some(read)
            },
            submitted is Err ==> {
                &&& polled == Poll::Ready(None::<C::Item>)
                &&& final(self).closed()
            },
    {
        match submitted {
            Ok(read) => {
                self.state = MessageStreamState::WaitingForTask(read);
                Poll::Pending
            },
            Err(_) => {
                self.state = MessageStreamState::Closed;
                Poll::Ready(None)
            },
        }
    }

    /// Submits the job that reads the log from `reader`. Where the queue
    /// takes it, the future that comes back is that of a read from `reader`:
    /// whatever it resolves to is what one call of [`LogCursor::read`]
    /// returned for a cursor that stood at `reader`, with the cursor as that
    /// call left it.
    pub fn submit_read(&self, reader: C) -> (submitted: Result<
        WithWorld<MessageStreamData<C>>,
        QueueClosed,
    >)
        ensures
            submitted matches Ok(read) ==> {
                &&& !read.finished()
                &&& forall|data: MessageStreamData<C>| #[trigger]
                    read.may_return(data) ==> exists|
                        cursor: &mut C,
                        world: &World,
                        batch: LogBatch<C::Item>,
                    |
                        is_read(cursor, world, batch, reader, data) && *final(cursor)
                            == data.reader()
            },
    {
        let read_log = move |world: &mut World| -> (data: MessageStreamData<C>)
            ensures
                exists|cursor: &mut C, seen: &World, batch: LogBatch<C::Item>|
                    is_read(cursor, seen, batch, reader, data) && *final(cursor) == data.reader(),
            { MessageStreamData::read_log(reader, world) };
        self.cx.with_world(read_log)
    }

    /// Yields the next item.
    ///
    /// With items in the buffer, the oldest of them comes out at once and the
    /// rest stay; the cursor stays as it is, and no job is submitted. With an
    /// empty buffer at hand, the reader hands its cursor to a job that reads
    /// the log from there, asks to be polled again, and is pending. While it
    /// waits for a read job, it is pending as long as the job has not run.
    /// When the job's result is there, it becomes buffer and cursor, and its
    /// oldest item comes out; a result without items sends its cursor on to
    /// the next read job. So `Pending` says that a read job is outstanding.
    /// `Ready(None)` says that the scheduler is gone: the queue refused a
    /// read job or dropped it, the reader holds nothing any more, and every
    /// later poll says the same.
    pub fn poll_next(&mut self, cx: &mut Context<'_>) -> (polled: Poll<Option<C::Item>>)
        ensures
            final(self).context() == old(self).context(),
            final(self).missed_so_far() >= old(self).missed_so_far(),
            old(self).buffered().len() > 0 ==> {
                &&& polled == Poll::Ready(Some(old(self).buffered()[0]))
                &&& final(self).buffered() == old(self).buffered().skip(1)
                &&& final(self).cursor() == old(self).cursor()
                &&& final(self).missed_so_far() == old(self).missed_so_far()
            },
            old(self).closed() ==> {
                &&& polled == Poll::Ready(None::<C::Item>)
                &&& final(self).closed()
                &&& final(self).missed_so_far() == old(self).missed_so_far()
            },
            old(self).buffered().len() == 0 ==> (old(self).cursor() matches Some(from) ==> {
                &&& final(self).missed_so_far() == old(self).missed_so_far()
                &&& match polled {
                    Poll::Pending => {
                        &&& final(self).awaited() matches Some(read)
                        &&& !read.finished()
                        &&& forall|data: MessageStreamData<C>| #[trigger]
                            read.may_return(data) ==> exists|
                                cursor: &mut C,
                                world: &World,
                                batch: LogBatch<C::Item>,
                            |
                                is_read(cursor, world, batch, from, data) && *final(cursor)
                                    == data.reader()
                    },
                    Poll::Ready(None) => final(self).closed(),
                    Poll::Ready(Some(_)) => false,
                }
            }),
            old(self).awaited() matches Some(job) ==> match polled {
                Poll::Pending => {
                    &&& final(self).awaited() matches Some(read)
                    &&& {
                        ||| read.results() == job.results() && final(self).missed_so_far()
                            == old(self).missed_so_far()
                        ||| exists|found: MessageStreamData<C>|
                            {
                                &&& found.items().len() == 0
                                &&& final(self).missed_so_far() == capped_sum(
                                    old(self).missed_so_far(),
                                    found.missed(),
                                )
                                &&& !read.finished()
                                &&& forall|data: MessageStreamData<C>| #[trigger]
                                    read.may_return(data) ==> exists|
                                        cursor: &mut C,
                                        world: &World,
                                        batch: LogBatch<C::Item>,
                                    |
                                        is_read(cursor, world, batch, found.reader(), data)
                                            && *final(cursor) == data.reader()
                            }
                    }
                },
                Poll::Ready(None) => final(self).closed(),
                Poll::Ready(Some(item)) => exists|found: MessageStreamData<C>|
                    {
                        &&& found.items().len() > 0
                        &&& item == (#[trigger] found.items())[0]
                        &&& final(self).buffered() == found.items().skip(1)
                        &&& final(self).cursor() == Some(found.reader())
                        &&& final(self).missed_so_far() == capped_sum(
                            old(self).missed_so_far(),
                            found.missed(),
                        )
                    },
            },
    {
        let mut state = MessageStreamState::Closed;
        core::mem::swap(&mut state, &mut self.state);
        let step = match state {
            MessageStreamState::Closed => Step::Answer(Poll::Ready(None)),
            MessageStreamState::HasItems(data) => self.buffer_step(data),
            MessageStreamState::WaitingForTask(mut read) => {
                let polled = read.poll_result(cx);
                self.read_step(read, polled)
            },
        };
        match step {
            Step::Answer(polled) => polled,
            Step::Read(reader) => {
                let ghost from = reader;
                let submitted = self.submit_read(reader);
                let polled = self.submit_step(submitted);
                cx.waker().wake_by_ref();
                proof {
                    if old(self).cursor() is Some && old(self).buffered().len() == 0 && polled
                        is Pending {
                        let read = self.awaited()->0;
                        let start = old(self).cursor()->0;
                        assert forall|data: MessageStreamData<C>| #[trigger]
                            read.may_return(data) implies exists|
                            cursor: &mut C,
                            world: &World,
                            batch: LogBatch<C::Item>,
                        |
                            is_read(cursor, world, batch, start, data) && *final(cursor)
                                == data.reader() by {
                            let (cursor, world, batch) = choose|
                                cursor: &mut C,
                                world: &World,
                                batch: LogBatch<C::Item>,
                            |
                                is_read(cursor, world, batch, from, data) && *final(cursor)
                                    == data.reader();
                            assert(is_read(cursor, world, batch, start, data));
                        }
                    }
                }
                polled
            },
        }
    }
}

impl<C: LogCursor> Unpin for MessageStream<C> {}

/// `Pin::get_mut` on a pinned [`MessageStream`], which may be moved: the
/// reference inside the pin.
#[verifier::external_body]
fn unpinned<'a, C: LogCursor>(pinned: Pin<&'a mut MessageStream<C>>) -> (this: &'a mut MessageStream<
    C,
>) {
    Pin::get_mut(pinned)
}

impl<C: LogCursor> Stream for MessageStream<C> {
    type Item = C::Item;

    /// Yields the next item, as [`MessageStream::poll_next`] does.
    fn poll_next(self: Pin<&mut Self>, cx: &mut Context<'_>) -> (polled: Poll<Option<C::Item>>) {
        unpinned(self).poll_next(cx)
    }
}

} // verus!
