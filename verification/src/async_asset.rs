//! Change subscriptions: for each watched key the value that was last
//! broadcast and the channel that broadcasts it, compared once per tick with
//! the key's current value.
use crate::QueueClosed;
use crate::TaskContext;
use crate::WithWorld;
use bevy_ecs::resource::Resource;
use bevy_ecs::world::World;
use core::pin::Pin;
use core::task::Context;
use core::task::Poll;
use futures::Stream;
use tokio::sync::watch;
use tokio_stream::wrappers::WatchStream;
use vstd::laws_eq::obeys_concrete_eq;
use vstd::prelude::*;

verus! {

/// Equality as a watched type chooses it. Some values cannot be compared
/// field by field; such a type says here when two of its values count as the
/// same. The answer must depend on the two values alone.
pub trait PartialEquality: Sized {
    /// What `eq` decides. A type of this library states it; for any other
    /// type it stands for whatever that type's `eq` computes, and nothing is
    /// known of it.
    open spec fn eq_spec(&self, other: &Self) -> bool {
        vstd::pervasive::arbitrary::<spec_fn(Self, Self) -> bool>()(*self, *other)
    }

    /// Whether the two values count as the same.
    fn eq(&self, other: &Self) -> (same: bool)
        ensures
            same == self.eq_spec(other),
    ;
}

/// How far the loading of a resource and of all that it depends on has come.
/// `E` tells why a load failed.
#[derive(Clone, Debug)]
pub enum LoadState<E> {
    /// Loading has not been asked for, or the resource is gone.
    NotLoaded,
    /// The resource or something it depends on is still loading.
    Loading,
    /// The resource and all that it depends on are loaded.
    Loaded,
    /// The resource or something it depends on failed to load.
    Failed(E),
}

impl<E: PartialEquality> PartialEquality for LoadState<E> {
    /// Two states are the same where they are the same stage, and two
    /// failures where their reasons count as the same.
    open spec fn eq_spec(&self, other: &Self) -> bool {
        match (*self, *other) {
            (LoadState::NotLoaded, LoadState::NotLoaded) => true,
            (LoadState::Loading, LoadState::Loading) => true,
            (LoadState::Loaded, LoadState::Loaded) => true,
            (LoadState::Failed(left), LoadState::Failed(right)) => left.eq_spec(&right),
            _ => false,
        }
    }

    fn eq(&self, other: &Self) -> (same: bool) {
        match (self, other) {
            (LoadState::NotLoaded, LoadState::NotLoaded) => true,
            (LoadState::Loading, LoadState::Loading) => true,
            (LoadState::Loaded, LoadState::Loaded) => true,
            (LoadState::Failed(left), LoadState::Failed(right)) => left.eq(right),
            _ => false,
        }
    }
}

/// A subscription as contracts see it: the watched key, the value last
/// broadcast for it, and the sender of its channel.
pub type Watched<K, V> = (K, V, watch::Sender<V>);

/// One subscription.
#[verifier::reject_recursive_types(V)]
pub struct Subscription<K, V> {
    key: K,
    last: V,
    updates: watch::Sender<V>,
}

impl<K, V> View for Subscription<K, V> {
    type V = Watched<K, V>;

    closed spec fn view(&self) -> Watched<K, V> {
        (self.key, self.last, self.updates)
    }
}

/// No two subscriptions watch the same key.
pub open spec fn distinct_keys<K, V>(subscriptions: Seq<Watched<K, V>>) -> bool {
    forall|i: int, j: int|
        0 <= i < j < subscriptions.len() ==> (#[trigger] subscriptions[i]).0
            != (#[trigger] subscriptions[j]).0
}

/// The subscriptions without the one for `key`, in their order.
pub open spec fn without<K, V>(subscriptions: Seq<Watched<K, V>>, key: K) -> Seq<Watched<K, V>>
    decreases subscriptions.len(),
{
    if subscriptions.len() == 0 {
        Seq::empty()
    } else {
        let earlier = without(subscriptions.drop_last(), key);
        if subscriptions.last().0 == key {
            earlier
        } else {
            earlier.push(subscriptions.last())
        }
    }
}

/// The subscriptions after one tick, in their order. `observed` holds for
/// each subscription the key's current value and whether a broadcast of it
/// was delivered. A subscription whose current value counts as the same as
/// the last one stays as it is. Where the value changed and the broadcast was
/// delivered, the current value becomes the last one. Where the broadcast was
/// refused, because no receiver is left, the subscription is gone.
pub open spec fn settled<K, V: PartialEquality>(
    subscriptions: Seq<Watched<K, V>>,
    observed: Seq<(V, bool)>,
) -> Seq<Watched<K, V>>
    recommends
        subscriptions.len() == observed.len(),
    decreases subscriptions.len(),
{
    if subscriptions.len() == 0 {
        Seq::empty()
    } else {
        let earlier = settled(subscriptions.drop_last(), observed.drop_last());
        let (key, last, updates) = subscriptions.last();
        let (current, delivered) = observed.last();
        if current.eq_spec(&last) {
            earlier.push(subscriptions.last())
        } else if delivered {
            earlier.push((key, current, updates))
        } else {
            earlier
        }
    }
}

/// The keys that the subscriptions watch are among those that `of` watches.
pub open spec fn keys_among<K, V>(subscriptions: Seq<Watched<K, V>>, of: Seq<Watched<K, V>>) -> bool {
    forall|i: int|
        0 <= i < subscriptions.len() ==> exists|j: int|
            0 <= j < of.len() && (#[trigger] of[j]).0 == (#[trigger] subscriptions[i]).0
}

/// The table of subscriptions: at most one for each key.
#[verifier::reject_recursive_types(V)]
pub struct AssetSubscriptions<K, V> {
    handles: Vec<Subscription<K, V>>,
}

impl<K: Send + Sync + 'static, V: Send + Sync + 'static> Resource for AssetSubscriptions<K, V> {}

impl<K, V> Default for AssetSubscriptions<K, V> {
    /// A table without subscriptions.
    fn default() -> (subscriptions: Self)
        ensures
            subscriptions@ == Seq::<Watched<K, V>>::empty(),
    {
        AssetSubscriptions { handles: Vec::new() }
    }
}

impl<K, V> View for AssetSubscriptions<K, V> {
    type V = Seq<Watched<K, V>>;

    closed spec fn view(&self) -> Seq<Watched<K, V>> {
        Seq::new(self.handles@.len(), |i: int| self.handles@[i]@)
    }
}

impl<K, V> AssetSubscriptions<K, V> {
    #[verifier::type_invariant]
    spec fn one_per_key(self) -> bool {
        distinct_keys(self@)
    }

    /// The number of subscriptions.
    pub fn len(&self) -> (len: usize)
        ensures
            len == self@.len(),
    {
        self.handles.len()
    }

    /// Subscribes to the values of `id`, starting with `init`, the value at
    /// the time of the call. The receiver that is returned holds `init` as
    /// its first value, so that a subscriber sees at least one value even if
    /// the value never changes again. A subscription that was there for `id`
    /// is replaced, and its channel closes.
    pub fn subscribe_to(&mut self, id: K, init: V) -> (receiver: watch::Receiver<V>) where
        K: PartialEq,
        V: Clone,

        requires
            obeys_concrete_eq::<K>(),
        ensures
            exists|updates: watch::Sender<V>|
                final(self)@ == without(old(self)@, id).push((id, init, updates)),
            distinct_keys(final(self)@),
    {
        proof {
            use_type_invariant(&*self);
            reveal(obeys_concrete_eq);
        }
        let (updates, receiver) = watch::channel(init.clone());
        let mut before: Vec<Subscription<K, V>> = Vec::new();
        core::mem::swap(&mut before, &mut self.handles);
        let ghost all = before@;
        let ghost found = Seq::new(all.len(), |i: int| all[i]@);
        let mut kept: Vec<Subscription<K, V>> = Vec::new();
        for entry in it: before
            invariant
                it.seq() == all,
                found.len() == all.len(),
                forall|i: int| 0 <= i < all.len() ==> found[i] == (#[trigger] all[i])@,
                Seq::new(kept@.len(), |i: int| kept@[i]@) == without(
                    found.take(it.index() as int),
                    id,
                ),
                obeys_concrete_eq::<K>(),
        {
            proof {
                reveal(obeys_concrete_eq);
                let n = it.index() as int;
                assert(found.take(n + 1).drop_last() == found.take(n));
            }
            if entry.key != id {
                kept.push(entry);
            }
        }
        kept.push(Subscription { key: id, last: init, updates });
        proof {
            assert(found.take(all.len() as int) == found);
            assert(Seq::new(kept@.len(), |i: int| kept@[i]@) == without(found, id).push(
                (id, init, updates),
            ));
            lemma_without_keeps_others(found, id);
            lemma_without_stays_distinct(found, id);
        }
        self.handles = kept;
        receiver
    }
}

/// What is left without `key` watches no key that was not watched before,
/// and does not watch `key`.
pub proof fn lemma_without_keeps_others<K, V>(subscriptions: Seq<Watched<K, V>>, key: K)
    ensures
        keys_among(without(subscriptions, key), subscriptions),
        forall|i: int|
            0 <= i < without(subscriptions, key).len() ==> (#[trigger] without(
                subscriptions,
                key,
            )[i]).0 != key,
        without(subscriptions, key).len() <= subscriptions.len(),
    decreases subscriptions.len(),
{
    if subscriptions.len() > 0 {
        let shorter = subscriptions.drop_last();
        lemma_without_keeps_others(shorter, key);
        let earlier = without(shorter, key);
        let left = without(subscriptions, key);
        assert forall|i: int| 0 <= i < left.len() implies exists|j: int|
            0 <= j < subscriptions.len() && (#[trigger] subscriptions[j]).0 == (
            #[trigger] left[i]).0 by {
            if i < earlier.len() {
                let j = choose|j: int|
                    0 <= j < shorter.len() && (#[trigger] shorter[j]).0 == earlier[i].0;
                assert(subscriptions[j] == shorter[j]);
            } else {
                assert(left[i] == subscriptions[subscriptions.len() - 1]);
            }
        }
    }
}

/// Taking a subscription away leaves at most one for each key.
pub proof fn lemma_without_stays_distinct<K, V>(subscriptions: Seq<Watched<K, V>>, key: K)
    requires
        distinct_keys(subscriptions),
    ensures
        distinct_keys(without(subscriptions, key)),
    decreases subscriptions.len(),
{
    if subscriptions.len() > 0 {
        let shorter = subscriptions.drop_last();
        assert(distinct_keys(shorter)) by {
            assert forall|i: int, j: int| 0 <= i < j < shorter.len() implies (
            #[trigger] shorter[i]).0 != (#[trigger] shorter[j]).0 by {
                assert(shorter[i] == subscriptions[i]);
                assert(shorter[j] == subscriptions[j]);
            }
        }
        lemma_without_stays_distinct(shorter, key);
        lemma_without_keeps_others(shorter, key);
        let earlier = without(shorter, key);
        let left = without(subscriptions, key);
        assert forall|i: int, j: int| 0 <= i < j < left.len() implies (#[trigger] left[i]).0 != (
        #[trigger] left[j]).0 by {
            if j >= earlier.len() {
                let at = choose|at: int|
                    0 <= at < shorter.len() && (#[trigger] shorter[at]).0 == earlier[i].0;
                assert(shorter[at] == subscriptions[at]);
                assert(left[j] == subscriptions[subscriptions.len() - 1]);
            }
        }
    }
}

/// What a tick leaves watches no key that was not watched before, and is no
/// longer than what it found.
pub proof fn lemma_settled_keeps_keys<K, V: PartialEquality>(
    subscriptions: Seq<Watched<K, V>>,
    observed: Seq<(V, bool)>,
)
    requires
        subscriptions.len() == observed.len(),
    ensures
        keys_among(settled(subscriptions, observed), subscriptions),
        settled(subscriptions, observed).len() <= subscriptions.len(),
    decreases subscriptions.len(),
{
    if subscriptions.len() > 0 {
        let shorter = subscriptions.drop_last();
        lemma_settled_keeps_keys(shorter, observed.drop_last());
        let earlier = settled(shorter, observed.drop_last());
        let left = settled(subscriptions, observed);
        assert forall|i: int| 0 <= i < left.len() implies exists|j: int|
            0 <= j < subscriptions.len() && (#[trigger] subscriptions[j]).0 == (
            #[trigger] left[i]).0 by {
            if i < earlier.len() {
                let j = choose|j: int|
                    0 <= j < shorter.len() && (#[trigger] shorter[j]).0 == earlier[i].0;
                assert(subscriptions[j] == shorter[j]);
            } else {
                assert(left[i].0 == subscriptions[subscriptions.len() - 1].0);
            }
        }
    }
}

/// A tick leaves at most one subscription for each key.
pub proof fn lemma_settled_stays_distinct<K, V: PartialEquality>(
    subscriptions: Seq<Watched<K, V>>,
    observed: Seq<(V, bool)>,
)
    requires
        subscriptions.len() == observed.len(),
        distinct_keys(subscriptions),
    ensures
        distinct_keys(settled(subscriptions, observed)),
    decreases subscriptions.len(),
{
    if subscriptions.len() > 0 {
        let shorter = subscriptions.drop_last();
        assert(distinct_keys(shorter)) by {
            assert forall|i: int, j: int| 0 <= i < j < shorter.len() implies (
            #[trigger] shorter[i]).0 != (#[trigger] shorter[j]).0 by {
                assert(shorter[i] == subscriptions[i]);
                assert(shorter[j] == subscriptions[j]);
            }
        }
        lemma_settled_stays_distinct(shorter, observed.drop_last());
        lemma_settled_keeps_keys(shorter, observed.drop_last());
        let earlier = settled(shorter, observed.drop_last());
        let left = settled(subscriptions, observed);
        assert forall|i: int, j: int| 0 <= i < j < left.len() implies (#[trigger] left[i]).0 != (
        #[trigger] left[j]).0 by {
            if j >= earlier.len() {
                let at = choose|at: int|
                    0 <= at < shorter.len() && (#[trigger] shorter[at]).0 == earlier[i].0;
                assert(shorter[at] == subscriptions[at]);
                assert(left[j].0 == subscriptions[subscriptions.len() - 1].0);
            }
        }
    }
}

/// One tick for a single subscription: a current value that counts as the
/// same as the last one leaves the subscription as it is; a changed value
/// that was delivered becomes the last value; a changed value that was
/// refused ends the subscription.
pub proof fn lemma_one_subscription_one_tick<K, V: PartialEquality>(
    subscription: Watched<K, V>,
    current: V,
    delivered: bool,
)
    ensures
        settled(seq![subscription], seq![(current, delivered)]) == (if current.eq_spec(
            &subscription.1,
        ) {
            seq![subscription]
        } else if delivered {
            seq![(subscription.0, current, subscription.2)]
        } else {
            Seq::<Watched<K, V>>::empty()
        }),
{
    let alone = seq![subscription];
    let seen = seq![(current, delivered)];
    assert(settled(alone.drop_last(), seen.drop_last()) == Seq::<Watched<K, V>>::empty());
}

/// Every change is broadcast, also one that leads back: a value that goes
/// from `first` to `second` in one tick and back to `first` in the next is
/// the last value broadcast after each of the two ticks, as long as the two
/// values do not count as the same and a receiver is there.
pub proof fn lemma_a_value_that_changes_back_is_broadcast_twice<K, V: PartialEquality>(
    key: K,
    first: V,
    second: V,
    updates: watch::Sender<V>,
)
    requires
        !second.eq_spec(&first),
        !first.eq_spec(&second),
    ensures
        settled(seq![(key, first, updates)], seq![(second, true)]) == seq![(key, second, updates)],
        settled(seq![(key, second, updates)], seq![(first, true)]) == seq![(key, first, updates)],
{
    lemma_one_subscription_one_tick((key, first, updates), second, true);
    lemma_one_subscription_one_tick((key, second, updates), first, true);
}

/// The step of one tick: looks up the current value of every watched key and
/// broadcasts it where it does not count as the same as the last value
/// broadcast for that key. A subscription whose broadcast is refused, because
/// no receiver is left, is removed.
///
/// `lookup` is asked once for each subscription, in their order. The table
/// at the end is [`settled`] of the table at the start and of what was seen:
/// the values that `lookup` returned, and for each broadcast whether it was
/// delivered.
pub fn notify_asset_events<K, V, F>(subscriptions: &mut AssetSubscriptions<K, V>, lookup: F) where
    V: PartialEquality + Clone,
    F: Fn(&K) -> V,

    requires
        forall|key: &K| call_requires(lookup, (key,)),
    ensures
        exists|observed: Seq<(V, bool)>|
            {
                &&& observed.len() == old(subscriptions)@.len()
                &&& forall|i: int|
                    0 <= i < observed.len() ==> call_ensures(
                        lookup,
                        (&old(subscriptions)@[i].0,),
                        (#[trigger] observed[i]).0,
                    )
                &&& final(subscriptions)@ == settled(old(subscriptions)@, observed)
            },
        distinct_keys(final(subscriptions)@),
{
    proof {
        use_type_invariant(&*subscriptions);
    }
    let mut before: Vec<Subscription<K, V>> = Vec::new();
    core::mem::swap(&mut before, &mut subscriptions.handles);
    let ghost all = before@;
    let ghost found = Seq::new(all.len(), |i: int| all[i]@);
    let ghost mut observed: Seq<(V, bool)> = Seq::empty();
    let mut kept: Vec<Subscription<K, V>> = Vec::new();
    for entry in it: before
        invariant
            it.seq() == all,
            found.len() == all.len(),
            forall|i: int| 0 <= i < all.len() ==> found[i] == (#[trigger] all[i])@,
            observed.len() == it.index(),
            forall|i: int|
                0 <= i < observed.len() ==> call_ensures(
                    lookup,
                    (&found[i].0,),
                    (#[trigger] observed[i]).0,
                ),
            Seq::new(kept@.len(), |i: int| kept@[i]@) == settled(
                found.take(it.index() as int),
                observed,
            ),
            forall|key: &K| call_requires(lookup, (key,)),
    {
        let ghost n = it.index() as int;
        let ghost observed_before = observed;
        let Subscription { key, last, updates } = entry;
        let current = lookup(&key);
        if current.eq(&last) {
            proof {
                observed = observed.push((current, false));
            }
            kept.push(Subscription { key, last, updates });
        } else {
            let delivered = updates.send(current.clone()).is_ok();
            proof {
                observed = observed.push((current, delivered));
            }
            if delivered {
                kept.push(Subscription { key, last: current, updates });
            }
        }
        proof {
            assert(found.take(n + 1).drop_last() == found.take(n));
            assert(observed.drop_last() == observed_before);
        }
    }
    proof {
        assert(found.take(all.len() as int) == found);
        lemma_settled_stays_distinct(found, observed);
    }
    subscriptions.handles = kept;
}

/// `World::get_resource_or_init`, followed by `Mut::into_inner`: the
/// [`AssetSubscriptions`] of this world for keys of type `K` and values of
/// type `V`, made with `AssetSubscriptions::default()` first where the world
/// holds none. Nothing is claimed of what it holds, nor of the world
/// afterwards.
#[verifier::external_body]
fn subscriptions_of<K: Send + Sync + 'static, V: Send + Sync + 'static>(world: &mut World) -> (table:
    &mut AssetSubscriptions<K, V>) {
    world.get_resource_or_init::<AssetSubscriptions<K, V>>().into_inner()
}

/// The two states of a stream of a key's values.
#[verifier::reject_recursive_types(V)]
pub enum LoadStateStreamState<V> {
    /// The job that subscribes has not run yet.
    AwaitingWorld(WithWorld<watch::Receiver<V>>),
    /// The subscription is there; its channel is read as a stream.
    HasStream(WatchStream<V>),
}

/// The values of one watched key as a stream: first the value at the time
/// the subscription was made, then each value that a tick broadcasts.
#[verifier::reject_recursive_types(V)]
pub struct LoadStateStream<V> {
    state: LoadStateStreamState<V>,
}

impl<V: Clone + Send + Sync + 'static> LoadStateStream<V> {
    /// The job that subscribes, as long as the stream waits for it.
    pub closed spec fn awaited(self) -> Option<WithWorld<watch::Receiver<V>>> {
        match self.state {
            LoadStateStreamState::AwaitingWorld(subscription) => Some(subscription),
            LoadStateStreamState::HasStream(_) => None,
        }
    }

    /// The stream of the subscription's channel, once the subscription is
    /// there.
    pub closed spec fn values(self) -> Option<WatchStream<V>> {
        match self.state {
            LoadStateStreamState::AwaitingWorld(_) => None,
            LoadStateStreamState::HasStream(values) => Some(values),
        }
    }

    /// The subscription is there.
    pub open spec fn subscribed(self) -> bool {
        self.values() is Some
    }

    /// A stream either waits for the job that subscribes or has its
    /// subscription.
    pub proof fn lemma_one_state(self)
        ensures
            self.subscribed() <==> self.awaited() is None,
    {
    }

    /// Submits the job that subscribes to `id`. When it runs, it asks
    /// `current` for the value of `id` in the world of that tick and
    /// subscribes with it as the first value.
    pub fn new<K, G>(cx: TaskContext, id: K, current: G) -> (stream: Result<Self, QueueClosed>) where
        K: PartialEq + Send + Sync + 'static,
        G: FnOnce(&World, &K) -> V + Send + 'static,

        requires
            obeys_concrete_eq::<K>(),
            forall|world: &World, key: &K| call_requires(current, (world, key)),
        ensures
            stream matches Ok(stream) ==> {
                &&& stream.awaited() matches Some(subscription)
                &&& !subscription.finished()
            },
    {
        let subscribe = move |world: &mut World| -> watch::Receiver<V>
            {
                let init = current(world, &id);
                subscriptions_of::<K, V>(world).subscribe_to(id, init)
            };
        match cx.with_world(subscribe) {
            Ok(subscription) => Ok(
                LoadStateStream { state: LoadStateStreamState::AwaitingWorld(subscription) },
            ),
            Err(closed) => Err(closed),
        }
    }

    /// Yields the next value. Until the job that subscribes has run, the
    /// stream is pending. From then on it is the stream of the subscription's
    /// channel: ready with the value that the channel holds where that value
    /// has not been seen yet, pending else, and at its end, `Ready(None)`,
    /// once the subscription is gone. `Ready(None)` also says that the job
    /// was dropped before it could run.
    ///
    /// A stream that has its subscription keeps it. A stream that is still
    /// without one after the poll goes on waiting for its job: the poll was
    /// pending if that job has yet to answer, and the end of the stream if it
    /// never will.
    pub fn poll_next(&mut self, cx: &mut Context<'_>) -> (polled: Poll<Option<V>>)
        ensures
            old(self).subscribed() ==> final(self).subscribed(),
            polled matches Poll::Ready(Some(_)) ==> final(self).subscribed(),
            final(self).awaited() matches Some(subscription) ==> {
                &&& old(self).awaited() is Some
                &&& polled is Pending <==> !subscription.finished()
                &&& polled is Ready ==> polled == Poll::Ready(None::<V>)
            },
    {
        match &mut self.state {
            LoadStateStreamState::AwaitingWorld(subscription) => {
                match subscription.poll_result(cx) {
                    Poll::Ready(Some(receiver)) => {
                        let mut values = WatchStream::new(receiver);
                        let polled = crate::channels::poll_watch_stream(&mut values, cx);
                        self.state = LoadStateStreamState::HasStream(values);
                        polled
                    },
                    Poll::Ready(None) => Poll::Ready(None),
                    Poll::Pending => Poll::Pending,
                }
            },
            LoadStateStreamState::HasStream(values) => crate::channels::poll_watch_stream(
                values,
                cx,
            ),
        }
    }
}

/// `Pin::get_mut` on a pinned [`LoadStateStream`], which may be moved: the
/// reference inside the pin.
#[verifier::external_body]
fn unpinned<'a, V>(pinned: Pin<&'a mut LoadStateStream<V>>) -> (this: &'a mut LoadStateStream<V>) {
    Pin::get_mut(pinned)
}

impl<V: Clone + Send + Sync + 'static> Stream for LoadStateStream<V> {
    type Item = V;

    /// Yields the next value, as [`LoadStateStream::poll_next`] does.
    fn poll_next(self: Pin<&mut Self>, cx: &mut Context<'_>) -> (polled: Poll<Option<V>>) {
        unpinned(self).poll_next(cx)
    }
}

} // verus!
