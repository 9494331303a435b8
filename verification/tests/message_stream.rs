use bevy_ecs::message::Message;
use bevy_ecs::message::MessageCursor;
use bevy_ecs::message::Messages;
use bevy_ecs::resource::Resource;
use bevy_ecs::world::World;
use bevy_mod_async::message_stream::LogBatch;
use bevy_mod_async::message_stream::LogCursor;
use bevy_mod_async::message_stream::MessageStream;
use bevy_mod_async::message_stream::MessageStreamData;
use bevy_mod_async::message_stream::Step;
use bevy_mod_async::run_async_jobs;
use bevy_mod_async::AsyncWork;
use bevy_mod_async::QueueClosed;
use bevy_mod_async::TaskContext;
use futures::StreamExt;
use std::collections::VecDeque;
use std::sync::atomic::AtomicUsize;
use std::sync::atomic::Ordering;
use std::sync::Arc;
use std::task::Wake;
use std::task::Context;
use std::task::Poll;
use std::task::Waker;

/// A log that keeps its entries from `discarded` on.
struct Journal {
    discarded: usize,
    entries: Vec<char>,
}

impl Resource for Journal {}

#[derive(Default)]
struct JournalCursor {
    seen: usize,
}

impl LogCursor for JournalCursor {
    type Item = char;

    fn read(&mut self, world: &World) -> LogBatch<char> {
        let journal = world.resource::<Journal>();
        let missed = journal.discarded.saturating_sub(self.seen);
        let from = self.seen.max(journal.discarded) - journal.discarded;
        let items: VecDeque<char> = journal.entries[from..].iter().copied().collect();
        self.seen = journal.discarded + journal.entries.len();
        LogBatch { items, missed }
    }
}

#[derive(Clone, Debug, PartialEq)]
struct Ping(u32);

impl Message for Ping {}

#[derive(Default)]
struct PingCursor(MessageCursor<Ping>);

impl LogCursor for PingCursor {
    type Item = Ping;

    fn read(&mut self, world: &World) -> LogBatch<Ping> {
        let messages = world.resource::<Messages<Ping>>();
        let missed = self.0.missed_messages(messages);
        let items = self.0.read(messages).cloned().collect();
        LogBatch { items, missed }
    }
}

fn world_with_journal() -> (World, TaskContext) {
    let mut world = World::new();
    let work = AsyncWork::default();
    let cx = work.create_task_context();
    world.insert_resource(work);
    world.insert_resource(Journal { discarded: 0, entries: Vec::new() });
    (world, cx)
}

fn append(world: &mut World, entries: &[char]) {
    world.resource_mut::<Journal>().entries.extend_from_slice(entries);
}

fn poll_stream<C: LogCursor>(stream: &mut MessageStream<C>) -> Poll<Option<C::Item>> {
    let mut cx = Context::from_waker(Waker::noop());
    stream.poll_next(&mut cx)
}

#[test]
fn items_of_two_drains_come_out_once_and_in_order() {
    let (mut world, cx) = world_with_journal();
    let mut stream = MessageStream::<JournalCursor>::new(cx);
    append(&mut world, &['a', 'b']);
    assert_eq!(poll_stream(&mut stream), Poll::Pending);
    run_async_jobs(&mut world);
    assert_eq!(poll_stream(&mut stream), Poll::Ready(Some('a')));
    assert_eq!(poll_stream(&mut stream), Poll::Ready(Some('b')));
    append(&mut world, &['c']);
    assert_eq!(poll_stream(&mut stream), Poll::Pending);
    run_async_jobs(&mut world);
    assert_eq!(poll_stream(&mut stream), Poll::Ready(Some('c')));
    assert_eq!(poll_stream(&mut stream), Poll::Pending);
    run_async_jobs(&mut world);
    assert_eq!(poll_stream(&mut stream), Poll::Pending);
    assert_eq!(stream.missed(), 0);
}

#[test]
fn a_drain_without_new_items_asks_to_be_polled_again() {
    let (mut world, cx) = world_with_journal();
    let mut stream = MessageStream::<JournalCursor>::new(cx);
    for _ in 0..3 {
        assert_eq!(poll_stream(&mut stream), Poll::Pending);
        run_async_jobs(&mut world);
    }
    append(&mut world, &['z']);
    assert_eq!(poll_stream(&mut stream), Poll::Pending);
    run_async_jobs(&mut world);
    assert_eq!(poll_stream(&mut stream), Poll::Ready(Some('z')));
}

#[test]
fn items_appended_while_the_buffer_drains_wait_for_the_next_read() {
    let (mut world, cx) = world_with_journal();
    let mut stream = MessageStream::<JournalCursor>::new(cx);
    append(&mut world, &['a', 'b']);
    assert_eq!(poll_stream(&mut stream), Poll::Pending);
    run_async_jobs(&mut world);
    append(&mut world, &['c']);
    run_async_jobs(&mut world);
    assert_eq!(poll_stream(&mut stream), Poll::Ready(Some('a')));
    assert_eq!(poll_stream(&mut stream), Poll::Ready(Some('b')));
    assert_eq!(poll_stream(&mut stream), Poll::Pending);
    run_async_jobs(&mut world);
    assert_eq!(poll_stream(&mut stream), Poll::Ready(Some('c')));
}

#[test]
fn one_read_is_submitted_for_an_empty_buffer() {
    let (mut world, cx) = world_with_journal();
    let mut stream = MessageStream::<JournalCursor>::new(cx);
    assert_eq!(poll_stream(&mut stream), Poll::Pending);
    assert_eq!(poll_stream(&mut stream), Poll::Pending);
    assert_eq!(poll_stream(&mut stream), Poll::Pending);
    assert_eq!(world.resource_mut::<AsyncWork>().take_pending().len(), 1);
}

#[test]
fn discarded_entries_are_counted_as_missed() {
    let (mut world, cx) = world_with_journal();
    let mut stream = MessageStream::<JournalCursor>::new(cx);
    append(&mut world, &['a']);
    assert_eq!(poll_stream(&mut stream), Poll::Pending);
    run_async_jobs(&mut world);
    assert_eq!(poll_stream(&mut stream), Poll::Ready(Some('a')));
    {
        let mut journal = world.resource_mut::<Journal>();
        journal.discarded = 4;
        journal.entries = vec!['e', 'f'];
    }
    assert_eq!(poll_stream(&mut stream), Poll::Pending);
    run_async_jobs(&mut world);
    assert_eq!(poll_stream(&mut stream), Poll::Ready(Some('e')));
    assert_eq!(stream.missed(), 3);
    assert_eq!(poll_stream(&mut stream), Poll::Ready(Some('f')));
    assert_eq!(stream.missed(), 3);
}

#[test]
fn the_stream_ends_when_the_queue_is_gone() {
    let work = AsyncWork::default();
    let cx = work.create_task_context();
    let mut stream = MessageStream::<JournalCursor>::new(cx);
    drop(work);
    assert_eq!(poll_stream(&mut stream), Poll::Ready(None));
}

#[test]
fn the_stream_ends_when_its_read_is_dropped() {
    let work = AsyncWork::default();
    let cx = work.create_task_context();
    let mut stream = MessageStream::<JournalCursor>::new(cx);
    assert_eq!(poll_stream(&mut stream), Poll::Pending);
    drop(work);
    assert_eq!(poll_stream(&mut stream), Poll::Ready(None));
}

#[test]
fn messages_of_the_world_come_out_in_the_order_written() {
    let mut world = World::new();
    let work = AsyncWork::default();
    let cx = work.create_task_context();
    world.insert_resource(work);
    world.init_resource::<Messages<Ping>>();
    let mut stream = MessageStream::<PingCursor>::new(cx);
    world.write_message(Ping(1));
    world.write_message(Ping(2));
    world.write_message(Ping(3));
    assert_eq!(poll_stream(&mut stream), Poll::Pending);
    run_async_jobs(&mut world);
    assert_eq!(poll_stream(&mut stream), Poll::Ready(Some(Ping(1))));
    assert_eq!(poll_stream(&mut stream), Poll::Ready(Some(Ping(2))));
    assert_eq!(poll_stream(&mut stream), Poll::Ready(Some(Ping(3))));
    world.resource_mut::<Messages<Ping>>().update();
    world.write_message(Ping(4));
    assert_eq!(poll_stream(&mut stream), Poll::Pending);
    run_async_jobs(&mut world);
    assert_eq!(poll_stream(&mut stream), Poll::Ready(Some(Ping(4))));
    assert_eq!(stream.missed(), 0);
}

#[test]
fn messages_that_the_world_dropped_are_missed() {
    let mut world = World::new();
    let work = AsyncWork::default();
    let cx = work.create_task_context();
    world.insert_resource(work);
    world.init_resource::<Messages<Ping>>();
    let mut stream = MessageStream::<PingCursor>::new(cx);
    world.write_message(Ping(1));
    world.write_message(Ping(2));
    world.resource_mut::<Messages<Ping>>().update();
    world.resource_mut::<Messages<Ping>>().update();
    world.write_message(Ping(3));
    assert_eq!(poll_stream(&mut stream), Poll::Pending);
    run_async_jobs(&mut world);
    assert_eq!(poll_stream(&mut stream), Poll::Ready(Some(Ping(3))));
    assert_eq!(stream.missed(), 2);
}

/// A cursor over a log that has discarded more entries than can be counted.
#[derive(Default)]
struct LossyCursor {
    reads: usize,
}

impl LogCursor for LossyCursor {
    type Item = u8;

    fn read(&mut self, _world: &World) -> LogBatch<u8> {
        self.reads += 1;
        let missed = if self.reads == 1 { usize::MAX - 1 } else { 5 };
        LogBatch { items: VecDeque::from(vec![0]), missed }
    }
}

#[test]
fn the_count_of_missed_entries_stops_at_the_largest_number() {
    let (mut world, cx) = world_with_journal();
    let mut stream = MessageStream::<LossyCursor>::new(cx);
    assert_eq!(poll_stream(&mut stream), Poll::Pending);
    run_async_jobs(&mut world);
    assert_eq!(poll_stream(&mut stream), Poll::Ready(Some(0)));
    assert_eq!(stream.missed(), usize::MAX - 1);
    assert_eq!(poll_stream(&mut stream), Poll::Pending);
    run_async_jobs(&mut world);
    assert_eq!(poll_stream(&mut stream), Poll::Ready(Some(0)));
    assert_eq!(stream.missed(), usize::MAX);
}

#[test]
fn a_reader_is_a_stream() {
    let (mut world, cx) = world_with_journal();
    let mut stream = MessageStream::<JournalCursor>::new(cx);
    append(&mut world, &['x', 'y']);
    let mut task = Context::from_waker(Waker::noop());
    assert_eq!(stream.poll_next_unpin(&mut task), Poll::Pending);
    run_async_jobs(&mut world);
    assert_eq!(futures::executor::block_on(stream.next()), Some('x'));
    assert_eq!(futures::executor::block_on(stream.next()), Some('y'));
}

struct Count(AtomicUsize);

impl Wake for Count {
    fn wake(self: Arc<Self>) {
        self.0.fetch_add(1, Ordering::SeqCst);
    }
}

fn read_of(items: &[char], missed: usize, seen: usize) -> MessageStreamData<JournalCursor> {
    let batch = LogBatch { items: items.iter().copied().collect(), missed };
    MessageStreamData::new(batch, JournalCursor { seen })
}

#[test]
fn a_step_on_a_filled_buffer_yields_and_keeps_the_cursor() {
    let (mut world, cx) = world_with_journal();
    append(&mut world, &['p', 'q', 'r']);
    let mut stream = MessageStream::<JournalCursor>::new(cx);
    let step = stream.buffer_step(read_of(&['p', 'q'], 0, 2));
    assert!(matches!(step, Step::Answer(Poll::Ready(Some('p')))));
    assert_eq!(poll_stream(&mut stream), Poll::Ready(Some('q')));
    assert_eq!(world.resource_mut::<AsyncWork>().take_pending().len(), 0);
    assert_eq!(poll_stream(&mut stream), Poll::Pending);
    run_async_jobs(&mut world);
    assert_eq!(poll_stream(&mut stream), Poll::Ready(Some('r')));
    assert_eq!(poll_stream(&mut stream), Poll::Pending);
}

#[test]
fn a_step_on_an_empty_buffer_hands_the_cursor_out() {
    let (_world, cx) = world_with_journal();
    let mut stream = MessageStream::<JournalCursor>::new(cx);
    let step = stream.buffer_step(read_of(&[], 0, 7));
    assert!(matches!(step, Step::Read(JournalCursor { seen: 7 })));
    assert_eq!(poll_stream(&mut stream), Poll::Ready(None));
}

#[test]
fn a_step_on_a_read_that_has_not_run_goes_on_waiting() {
    let (mut world, cx) = world_with_journal();
    let mut stream = MessageStream::<JournalCursor>::new(cx.clone());
    let read = cx.with_world(|_world: &mut World| read_of(&['k'], 0, 1)).unwrap();
    let step = stream.read_step(read, Poll::Pending);
    assert!(matches!(step, Step::Answer(Poll::Pending)));
    assert_eq!(poll_stream(&mut stream), Poll::Pending);
    assert_eq!(world.resource_mut::<AsyncWork>().take_pending().len(), 1);
}

#[test]
fn a_step_on_a_read_that_was_dropped_ends_the_stream() {
    let (_world, cx) = world_with_journal();
    let mut stream = MessageStream::<JournalCursor>::new(cx.clone());
    let read = cx.with_world(|_world: &mut World| read_of(&[], 0, 0)).unwrap();
    let step = stream.read_step(read, Poll::Ready(None));
    assert!(matches!(step, Step::Answer(Poll::Ready(None))));
    assert_eq!(poll_stream(&mut stream), Poll::Ready(None));
    assert_eq!(poll_stream(&mut stream), Poll::Ready(None));
}

#[test]
fn a_step_on_a_read_with_items_refills_the_buffer() {
    let (mut world, cx) = world_with_journal();
    append(&mut world, &['a', 'b', 'c', 'd']);
    let mut stream = MessageStream::<JournalCursor>::new(cx.clone());
    let read = cx.with_world(|_world: &mut World| read_of(&[], 0, 0)).unwrap();
    let step = stream.read_step(read, Poll::Ready(Some(read_of(&['b', 'c'], 1, 3))));
    assert!(matches!(step, Step::Answer(Poll::Ready(Some('b')))));
    assert_eq!(stream.missed(), 1);
    assert_eq!(poll_stream(&mut stream), Poll::Ready(Some('c')));
    assert_eq!(poll_stream(&mut stream), Poll::Pending);
    run_async_jobs(&mut world);
    assert_eq!(poll_stream(&mut stream), Poll::Ready(Some('d')));
    assert_eq!(stream.missed(), 1);
}

#[test]
fn a_step_on_a_read_without_items_sends_its_cursor_on() {
    let (_world, cx) = world_with_journal();
    let mut stream = MessageStream::<JournalCursor>::new(cx.clone());
    let read = cx.with_world(|_world: &mut World| read_of(&[], 0, 0)).unwrap();
    let step = stream.read_step(read, Poll::Ready(Some(read_of(&[], 2, 9))));
    assert!(matches!(step, Step::Read(JournalCursor { seen: 9 })));
    assert_eq!(stream.missed(), 2);
}

#[test]
fn a_step_on_a_submission_follows_the_queue() {
    let (mut world, cx) = world_with_journal();
    let mut stream = MessageStream::<JournalCursor>::new(cx.clone());
    let read = cx.with_world(|_world: &mut World| read_of(&['s'], 0, 1)).unwrap();
    assert_eq!(stream.submit_step(Ok(read)), Poll::Pending);
    run_async_jobs(&mut world);
    assert_eq!(poll_stream(&mut stream), Poll::Ready(Some('s')));
    assert_eq!(stream.submit_step(Err(QueueClosed)), Poll::Ready(None));
    assert_eq!(poll_stream(&mut stream), Poll::Ready(None));
}

#[test]
fn a_submitted_read_starts_from_the_cursor_it_was_given() {
    let (mut world, cx) = world_with_journal();
    append(&mut world, &['a', 'b', 'c', 'd']);
    let mut stream = MessageStream::<JournalCursor>::new(cx);
    let read = stream.submit_read(JournalCursor { seen: 2 });
    assert_eq!(stream.submit_step(read), Poll::Pending);
    run_async_jobs(&mut world);
    assert_eq!(poll_stream(&mut stream), Poll::Ready(Some('c')));
    assert_eq!(poll_stream(&mut stream), Poll::Ready(Some('d')));
    assert_eq!(poll_stream(&mut stream), Poll::Pending);
    append(&mut world, &['e']);
    run_async_jobs(&mut world);
    assert_eq!(poll_stream(&mut stream), Poll::Ready(Some('e')));
}

#[test]
fn a_poll_that_submits_a_read_asks_to_be_polled_again() {
    let (_world, cx) = world_with_journal();
    let mut stream = MessageStream::<JournalCursor>::new(cx);
    let count = Arc::new(Count(AtomicUsize::new(0)));
    let waker = Waker::from(count.clone());
    let mut task = Context::from_waker(&waker);
    assert_eq!(stream.poll_next(&mut task), Poll::Pending);
    assert_eq!(count.0.load(Ordering::SeqCst), 1);
    assert_eq!(stream.poll_next(&mut task), Poll::Pending);
    assert_eq!(count.0.load(Ordering::SeqCst), 1);
}

#[test]
fn a_read_job_reads_from_its_cursor_once() {
    let (mut world, _cx) = world_with_journal();
    append(&mut world, &['u', 'v', 'w']);
    let mut stream = MessageStream::<JournalCursor>::new(_cx);
    let data = MessageStreamData::read_log(JournalCursor { seen: 1 }, &world);
    assert!(matches!(stream.buffer_step(data), Step::Answer(Poll::Ready(Some('v')))));
    assert_eq!(poll_stream(&mut stream), Poll::Ready(Some('w')));
    let data = MessageStreamData::read_log(JournalCursor { seen: 3 }, &world);
    assert!(matches!(stream.buffer_step(data), Step::Read(JournalCursor { seen: 3 })));
}

#[test]
fn every_poll_on_one_outstanding_read_is_pending() {
    let (mut world, cx) = world_with_journal();
    let mut stream = MessageStream::<JournalCursor>::new(cx);
    append(&mut world, &['a', 'b']);
    assert_eq!(poll_stream(&mut stream), Poll::Pending);
    run_async_jobs(&mut world);
    assert_eq!(poll_stream(&mut stream), Poll::Ready(Some('a')));
    assert_eq!(poll_stream(&mut stream), Poll::Ready(Some('b')));
    for _ in 0..5 {
        assert_eq!(poll_stream(&mut stream), Poll::Pending);
    }
    assert_eq!(world.resource_mut::<AsyncWork>().take_pending().len(), 1);
}
