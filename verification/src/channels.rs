//! The channel types of `tokio::sync` that carry jobs, results and
//! notifications, and the calls that the scheduler makes into them.
//!
//! A channel is shared with other threads, so what a call returns depends on
//! what those threads did. The contracts below therefore claim only what holds
//! of every outcome; the functions that use them decide on the value that came
//! back.
use core::pin::Pin;
use core::task::Context;
use core::task::Poll;
use core::task::Waker;
use core::time::Duration;
use futures::FutureExt;
use futures::StreamExt;
use tokio::sync::mpsc;
use tokio::sync::oneshot;
use tokio::sync::watch;
use tokio_stream::wrappers::WatchStream;
use vstd::prelude::*;

verus! {

/// `tokio::sync::mpsc::UnboundedSender`: the producer end of the job queue.
#[verifier::external_type_specification]
#[verifier::external_body]
#[verifier::reject_recursive_types(T)]
pub struct ExUnboundedSender<T>(mpsc::UnboundedSender<T>);

/// `tokio::sync::mpsc::UnboundedReceiver`: the consumer end of the job queue.
#[verifier::external_type_specification]
#[verifier::external_body]
#[verifier::reject_recursive_types(T)]
pub struct ExUnboundedReceiver<T>(mpsc::UnboundedReceiver<T>);

/// `tokio::sync::mpsc::error::SendError`: the message that a closed queue
/// hands back.
#[verifier::external_type_specification]
#[verifier::reject_recursive_types(T)]
pub struct ExQueueSendError<T>(mpsc::error::SendError<T>);

/// `tokio::sync::mpsc::error::TryRecvError`: why nothing was received.
#[verifier::external_type_specification]
pub struct ExQueueTryRecvError(mpsc::error::TryRecvError);

/// `tokio::sync::oneshot::Sender`: the sending half of a one-shot channel.
#[verifier::external_type_specification]
#[verifier::external_body]
#[verifier::reject_recursive_types(T)]
pub struct ExOneshotSender<T>(oneshot::Sender<T>);

/// `tokio::sync::oneshot::Receiver`: the receiving half of a one-shot channel.
#[verifier::external_type_specification]
#[verifier::external_body]
#[verifier::reject_recursive_types(T)]
pub struct ExOneshotReceiver<T>(oneshot::Receiver<T>);

/// `tokio::sync::oneshot::error::TryRecvError`: why nothing was received.
#[verifier::external_type_specification]
pub struct ExOneshotTryRecvError(oneshot::error::TryRecvError);

/// `tokio::sync::oneshot::error::RecvError`: the sender was dropped unused.
#[verifier::external_type_specification]
#[verifier::external_body]
pub struct ExOneshotRecvError(oneshot::error::RecvError);

/// `tokio::sync::watch::Sender`: the sending half of a watch channel.
#[verifier::external_type_specification]
#[verifier::external_body]
#[verifier::reject_recursive_types(T)]
pub struct ExWatchSender<T>(watch::Sender<T>);

/// `tokio::sync::watch::Receiver`: a receiving half of a watch channel.
#[verifier::external_type_specification]
#[verifier::external_body]
#[verifier::reject_recursive_types(T)]
pub struct ExWatchReceiver<T>(watch::Receiver<T>);

/// `tokio::sync::watch::error::SendError`: the value that a watch channel
/// without receivers hands back.
#[verifier::external_type_specification]
#[verifier::reject_recursive_types(T)]
pub struct ExWatchSendError<T>(watch::error::SendError<T>);

/// `tokio_stream::wrappers::WatchStream`: a watch receiver as a stream.
#[verifier::external_type_specification]
#[verifier::external_body]
#[verifier::reject_recursive_types(T)]
pub struct ExWatchStream<T>(WatchStream<T>);

/// `core::pin::Pin`: a pointer whose target stays where it is. The futures
/// and streams of this library may all be moved, so a pin on one of them
/// holds nothing back.
#[verifier::external_type_specification]
#[verifier::external_body]
#[verifier::reject_recursive_types(Ptr)]
pub struct ExPin<Ptr>(Pin<Ptr>);

/// `core::task::Context`: the waker of the task that polls.
#[verifier::external_type_specification]
#[verifier::external_body]
pub struct ExContext<'a>(Context<'a>);

/// `core::task::Poll`: ready with a value, or pending.
#[verifier::external_type_specification]
#[verifier::reject_recursive_types(T)]
pub struct ExPoll<T>(Poll<T>);

/// `core::task::Waker`: the handle that schedules a task to be polled again.
#[verifier::external_type_specification]
#[verifier::external_body]
pub struct ExWaker(Waker);

/// `Context::waker` is the waker of the task that polls. Nothing is claimed
/// of it.
pub assume_specification<'a>[ Context::<'a>::waker ](cx: &Context<'a>) -> (waker: &'a Waker);

/// `Waker::wake_by_ref` schedules the task to be polled again. It returns
/// nothing to speak of.
pub assume_specification[ Waker::wake_by_ref ](waker: &Waker);

/// `Duration::as_nanos` is the span in whole nanoseconds. Nothing is claimed
/// of the number.
pub assume_specification[ Duration::as_nanos ](span: &Duration) -> (nanos: u128);

/// `tokio::sync::mpsc::unbounded_channel` makes the two ends of a new queue.
/// Nothing is claimed of them.
pub assume_specification<T>[ tokio::sync::mpsc::unbounded_channel::<T> ]() -> (ends: (
    mpsc::UnboundedSender<T>,
    mpsc::UnboundedReceiver<T>,
));

/// `UnboundedSender::send` fails only when the receiving end is closed or
/// gone, and then hands the message back unchanged. Whether it fails is not
/// claimed.
pub assume_specification<T>[ mpsc::UnboundedSender::<T>::send ](
    queue: &mpsc::UnboundedSender<T>,
    message: T,
) -> (sent: Result<(), mpsc::error::SendError<T>>)
    ensures
        sent matches Err(refused) ==> refused.0 == message,
;

/// `UnboundedSender::clone` makes one more producer end of the same queue.
/// A sender holds nothing but a counted reference to its queue, and the clone
/// holds a copy of that reference, so the two are one value: what is sent
/// through either arrives at the same receiver.
pub assume_specification<T>[ <mpsc::UnboundedSender<T> as Clone>::clone ](
    queue: &mpsc::UnboundedSender<T>,
) -> (other: mpsc::UnboundedSender<T>)
    ensures
        other == *queue,
;

/// `UnboundedReceiver::len` counts the messages waiting at this moment.
/// Other threads may add to them at any time, so nothing is claimed.
pub assume_specification<T>[ mpsc::UnboundedReceiver::<T>::len ](
    queue: &mpsc::UnboundedReceiver<T>,
) -> (waiting: usize);

/// `UnboundedReceiver::try_recv` takes the oldest waiting message, if there
/// is one, without blocking. Which outcome comes is not claimed.
pub assume_specification<T>[ mpsc::UnboundedReceiver::<T>::try_recv ](
    queue: &mut mpsc::UnboundedReceiver<T>,
) -> (received: Result<T, mpsc::error::TryRecvError>);

/// `tokio::sync::oneshot::channel` makes the two halves of a new one-shot
/// channel. Nothing is claimed of them.
pub assume_specification<T>[ tokio::sync::oneshot::channel::<T> ]() -> (halves: (
    oneshot::Sender<T>,
    oneshot::Receiver<T>,
));

/// `oneshot::Sender::send` fails only when the receiver is gone, and then
/// hands the value back unchanged. Whether it fails is not claimed.
pub assume_specification<T>[ oneshot::Sender::<T>::send ](
    sender: oneshot::Sender<T>,
    value: T,
) -> (sent: Result<(), T>)
    ensures
        sent matches Err(refused) ==> refused == value,
;

/// `tokio::sync::watch::channel` makes a watch channel that holds `init`.
/// Nothing is claimed of its halves.
pub assume_specification<T>[ tokio::sync::watch::channel::<T> ](init: T) -> (halves: (
    watch::Sender<T>,
    watch::Receiver<T>,
));

/// `watch::Sender::send` fails only when no receiver is left, and then hands
/// the value back unchanged. Whether it fails is not claimed.
pub assume_specification<T>[ watch::Sender::<T>::send ](
    sender: &watch::Sender<T>,
    value: T,
) -> (sent: Result<(), watch::error::SendError<T>>)
    ensures
        sent matches Err(refused) ==> refused.0 == value,
;

/// `WatchStream::new` turns a watch receiver into a stream that starts with
/// the value the channel holds. Nothing is claimed of it.
pub assume_specification<T: 'static + Clone + Send + Sync>[ WatchStream::<T>::new ](
    receiver: watch::Receiver<T>,
) -> (stream: WatchStream<T>);

/// Whether the receiver still holds its end of the channel. A receiver lets
/// go of it when it hands out the value or learns that none will come, and
/// must not be polled after that. This is a fact of the receiver alone; what
/// it is for a given receiver, only the calls below tell.
pub closed spec fn attached<T>(receiver: oneshot::Receiver<T>) -> bool {
    vstd::pervasive::arbitrary::<spec_fn(oneshot::Receiver<T>) -> bool>()(receiver)
}

/// `oneshot::Receiver::try_recv` takes the value if it was sent, without
/// blocking, and may be asked any number of times. Where it finds the channel
/// still empty it leaves the receiver as it is, holding its end. Which
/// outcome comes is not claimed.
pub assume_specification<T>[ oneshot::Receiver::<T>::try_recv ](
    receiver: &mut oneshot::Receiver<T>,
) -> (received: Result<T, oneshot::error::TryRecvError>)
    ensures
        received matches Err(oneshot::error::TryRecvError::Empty) ==> attached(*final(receiver)),
;

/// `FutureExt::poll_unpin` on a one-shot receiver that still holds its end of
/// the channel: ready with the value once it was sent, ready with nothing
/// once the sender was dropped unused, and pending, with the task's waker
/// registered, until then. Which outcome comes is not claimed. A receiver
/// that has let go of its end must not be polled, so it is not admitted.
#[verifier::external_body]
pub(crate) fn poll_attached<T>(receiver: &mut oneshot::Receiver<T>, cx: &mut Context<'_>) -> (polled:
    Poll<Option<T>>)
    requires
        attached(*old(receiver)),
{
    receiver.poll_unpin(cx).map(Result::ok)
}

/// Polls a one-shot receiver, whatever state it is in: ready with the value
/// once it was sent, ready with nothing once the sender was dropped unused or
/// the value was taken before, and pending, with the task's waker registered,
/// until then. The receiver is asked without the waker first, and polled with
/// it only where that found the channel still empty.
pub(crate) fn poll_oneshot<T>(receiver: &mut oneshot::Receiver<T>, cx: &mut Context<'_>) -> (polled:
    Poll<Option<T>>) {
    match receiver.try_recv() {
        Ok(value) => Poll::Ready(Some(value)),
        Err(oneshot::error::TryRecvError::Closed) => Poll::Ready(None),
        Err(oneshot::error::TryRecvError::Empty) => poll_attached(receiver, cx),
    }
}

/// `StreamExt::poll_next_unpin` on a watch stream: ready with the next value,
/// ready with nothing once the sender is gone, pending until then. Which
/// outcome comes is not claimed.
#[verifier::external_body]
pub(crate) fn poll_watch_stream<T: 'static + Clone + Send + Sync>(
    stream: &mut WatchStream<T>,
    cx: &mut Context<'_>,
) -> (polled: Poll<Option<T>>) {
    stream.poll_next_unpin(cx)
}

} // verus!
