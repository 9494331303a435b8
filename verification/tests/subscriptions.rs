use bevy_ecs::resource::Resource;
use bevy_ecs::world::World;
use bevy_mod_async::async_asset::notify_asset_events;
use bevy_mod_async::async_asset::AssetSubscriptions;
use bevy_mod_async::async_asset::LoadState;
use bevy_mod_async::async_asset::LoadStateStream;
use bevy_mod_async::async_asset::PartialEquality;
use bevy_mod_async::common_uses::load_outcome;
use bevy_mod_async::common_uses::LoadFailure;
use bevy_mod_async::run_async_jobs;
use bevy_mod_async::AsyncWork;
use futures::StreamExt;
use std::cell::Cell;
use std::cell::RefCell;
use std::collections::HashMap;
use std::task::Context;
use std::task::Poll;
use std::task::Waker;

/// A reason that counts as the same as another where the codes agree; the
/// note is left out of the comparison.
#[derive(Clone, Debug)]
struct Reason {
    code: u32,
    note: &'static str,
}

impl PartialEquality for Reason {
    fn eq(&self, other: &Self) -> bool {
        self.code == other.code
    }
}

type State = LoadState<Reason>;

struct Loads(HashMap<u64, State>);

impl Resource for Loads {}

fn failed(code: u32, note: &'static str) -> State {
    LoadState::Failed(Reason { code, note })
}

fn poll_values(stream: &mut LoadStateStream<State>) -> Poll<Option<State>> {
    let mut cx = Context::from_waker(Waker::noop());
    stream.poll_next(&mut cx)
}

fn tick(world: &mut World) {
    run_async_jobs(world);
    world.resource_scope(|world: &mut World, mut table: bevy_ecs::change_detection::Mut<AssetSubscriptions<u64, State>>| {
        let loads = world.resource::<Loads>();
        notify_asset_events(&mut table, |key: &u64| loads.0[key].clone());
    });
}

fn world_with_loads(loads: &[(u64, State)]) -> (World, bevy_mod_async::TaskContext) {
    let mut world = World::new();
    let work = AsyncWork::default();
    let cx = work.create_task_context();
    world.insert_resource(work);
    world.insert_resource(Loads(loads.iter().cloned().collect()));
    world.init_resource::<AssetSubscriptions<u64, State>>();
    (world, cx)
}

fn subscribe(cx: &bevy_mod_async::TaskContext, key: u64) -> LoadStateStream<State> {
    LoadStateStream::new(cx.clone(), key, |world: &World, key: &u64| {
        world.resource::<Loads>().0[key].clone()
    })
    .unwrap()
}

fn set(world: &mut World, key: u64, state: State) {
    world.resource_mut::<Loads>().0.insert(key, state);
}

#[test]
fn load_states_compare_by_stage_and_reason() {
    assert!(State::NotLoaded.eq(&State::NotLoaded));
    assert!(State::Loading.eq(&State::Loading));
    assert!(State::Loaded.eq(&State::Loaded));
    assert!(!State::Loading.eq(&State::Loaded));
    assert!(!State::NotLoaded.eq(&failed(1, "a")));
    assert!(!failed(1, "a").eq(&State::Loaded));
    assert!(failed(1, "a").eq(&failed(1, "b")));
    assert!(!failed(1, "a").eq(&failed(2, "a")));
}

#[test]
fn a_subscriber_sees_the_value_at_subscription_first() {
    let mut table = AssetSubscriptions::<u64, State>::default();
    let receiver = table.subscribe_to(7, State::Loading);
    assert!(matches!(*receiver.borrow(), State::Loading));
    assert_eq!(table.len(), 1);
}

#[test]
fn a_value_that_goes_there_and_back_is_broadcast_each_time() {
    let (mut world, cx) = world_with_loads(&[(1, State::Loading)]);
    let mut values = subscribe(&cx, 1);
    assert!(poll_values(&mut values).is_pending());
    tick(&mut world);
    assert!(matches!(poll_values(&mut values), Poll::Ready(Some(State::Loading))));
    assert!(poll_values(&mut values).is_pending());
    set(&mut world, 1, State::Loaded);
    tick(&mut world);
    assert!(matches!(poll_values(&mut values), Poll::Ready(Some(State::Loaded))));
    set(&mut world, 1, State::Loading);
    tick(&mut world);
    assert!(matches!(poll_values(&mut values), Poll::Ready(Some(State::Loading))));
    assert!(poll_values(&mut values).is_pending());
}

#[test]
fn a_value_that_stays_is_not_broadcast_again() {
    let (mut world, cx) = world_with_loads(&[(1, State::Loading)]);
    let mut values = subscribe(&cx, 1);
    tick(&mut world);
    assert!(matches!(poll_values(&mut values), Poll::Ready(Some(State::Loading))));
    tick(&mut world);
    tick(&mut world);
    assert!(poll_values(&mut values).is_pending());
}

#[test]
fn the_strategy_decides_what_counts_as_a_change() {
    let mut table = AssetSubscriptions::<u64, State>::default();
    let mut receiver = table.subscribe_to(3, failed(5, "first"));
    receiver.mark_unchanged();
    notify_asset_events(&mut table, |_key: &u64| failed(5, "second"));
    assert!(!receiver.has_changed().unwrap());
    assert!(matches!(&*receiver.borrow(), State::Failed(reason) if reason.note == "first"));
    notify_asset_events(&mut table, |_key: &u64| failed(6, "third"));
    assert!(receiver.has_changed().unwrap());
    assert!(matches!(&*receiver.borrow(), State::Failed(reason) if reason.note == "third"));
}

#[test]
fn the_lookup_is_asked_once_for_each_subscription() {
    let mut table = AssetSubscriptions::<u64, State>::default();
    let _first = table.subscribe_to(1, State::Loading);
    let _second = table.subscribe_to(2, State::Loading);
    let _third = table.subscribe_to(3, State::Loading);
    let asked = Cell::new(0u64);
    notify_asset_events(&mut table, |key: &u64| {
        asked.set(asked.get() * 10 + key);
        State::Loading
    });
    assert_eq!(asked.get(), 123);
}

#[test]
fn a_subscription_without_receiver_goes_when_its_value_changes() {
    let mut table = AssetSubscriptions::<u64, State>::default();
    let kept = table.subscribe_to(1, State::Loading);
    let dropped = table.subscribe_to(2, State::Loading);
    drop(dropped);
    notify_asset_events(&mut table, |_key: &u64| State::Loading);
    assert_eq!(table.len(), 2);
    notify_asset_events(&mut table, |_key: &u64| State::Loaded);
    assert_eq!(table.len(), 1);
    assert!(matches!(*kept.borrow(), State::Loaded));
    let asked = RefCell::new(Vec::new());
    notify_asset_events(&mut table, |key: &u64| {
        asked.borrow_mut().push(*key);
        State::Loaded
    });
    assert_eq!(asked.into_inner(), vec![1]);
}

#[test]
fn subscribing_again_replaces_the_subscription() {
    let mut table = AssetSubscriptions::<u64, State>::default();
    let first = table.subscribe_to(1, State::Loading);
    let _other = table.subscribe_to(2, State::Loading);
    let second = table.subscribe_to(1, State::Loaded);
    assert_eq!(table.len(), 2);
    assert!(first.has_changed().is_err());
    assert!(matches!(*second.borrow(), State::Loaded));
    let asked = RefCell::new(Vec::new());
    notify_asset_events(&mut table, |key: &u64| {
        asked.borrow_mut().push(*key);
        State::Loaded
    });
    assert_eq!(asked.into_inner(), vec![2, 1]);
}

#[test]
fn a_stream_ends_when_its_subscription_is_replaced() {
    let (mut world, cx) = world_with_loads(&[(1, State::Loading)]);
    let mut first = subscribe(&cx, 1);
    tick(&mut world);
    assert!(matches!(poll_values(&mut first), Poll::Ready(Some(State::Loading))));
    let mut second = subscribe(&cx, 1);
    tick(&mut world);
    assert!(matches!(poll_values(&mut first), Poll::Ready(None)));
    assert!(matches!(poll_values(&mut second), Poll::Ready(Some(State::Loading))));
}

#[test]
fn a_stream_without_queue_is_refused() {
    let work = AsyncWork::default();
    let cx = work.create_task_context();
    drop(work);
    let refused = LoadStateStream::<State>::new(cx, 1u64, |_world: &World, _key: &u64| State::Loading);
    assert!(refused.is_err());
}

#[test]
fn a_stream_whose_job_was_dropped_ends() {
    let work = AsyncWork::default();
    let cx = work.create_task_context();
    let mut values = subscribe(&cx, 1);
    drop(work);
    assert!(matches!(poll_values(&mut values), Poll::Ready(None)));
    assert!(matches!(poll_values(&mut values), Poll::Ready(None)));
}

#[test]
fn each_observation_of_a_load_has_its_outcome() {
    assert!(matches!(load_outcome::<Reason>(None), Some(Err(LoadFailure::NotLoaded))));
    assert!(matches!(load_outcome(Some(State::NotLoaded)), Some(Err(LoadFailure::NotLoaded))));
    assert!(load_outcome(Some(State::Loading)).is_none());
    assert!(matches!(load_outcome(Some(State::Loaded)), Some(Ok(()))));
    assert!(matches!(
        load_outcome(Some(failed(9, "gone"))),
        Some(Err(LoadFailure::Failed(Reason { code: 9, note: "gone" })))
    ));
}

#[test]
fn the_values_of_a_key_are_a_stream() {
    let (mut world, cx) = world_with_loads(&[(4, State::Loading)]);
    let mut values = subscribe(&cx, 4);
    tick(&mut world);
    assert!(matches!(futures::executor::block_on(values.next()), Some(State::Loading)));
    set(&mut world, 4, failed(2, "broken"));
    tick(&mut world);
    assert!(matches!(
        futures::executor::block_on(values.next()),
        Some(State::Failed(Reason { code: 2, note: "broken" }))
    ));
}
