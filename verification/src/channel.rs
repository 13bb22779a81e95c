//! The two kinds of handle through which a behaviour and a session talk, each with a ledger of
//! what went through it.

use crate::reading::{AsBytes, AsMessage, Reads, Stream};
use core::task::{Context, Poll};
use futures::FutureExt;
use tokio::sync::mpsc::{unbounded_channel, UnboundedReceiver, UnboundedSender};
use vstd::prelude::*;

verus! {

/// tokio's `UnboundedSender`, taken as it is: nothing inside a value of it is known here.
#[verifier::external_type_specification]
#[verifier::external_body]
#[verifier::reject_recursive_types(T)]
pub struct ExUnboundedSender<T>(UnboundedSender<T>);

/// tokio's `UnboundedReceiver`, taken as it is: nothing inside a value of it is known here.
#[verifier::external_type_specification]
#[verifier::external_body]
#[verifier::reject_recursive_types(T)]
pub struct ExUnboundedReceiver<T>(UnboundedReceiver<T>);

/// The standard library's task `Context`, which is only passed on.
#[verifier::external_type_specification]
#[verifier::external_body]
pub struct ExContext<'a>(Context<'a>);

/// What a session may fail with.
pub trait ErrorType: Send + std::fmt::Debug + 'static {

}

impl<T: Send + std::fmt::Debug + 'static> ErrorType for T {

}

/// A message on its way to the session: bytes, or the error that came of making them.
pub type InMessage<E> = Result<Vec<u8>, E>;

/// Sends messages to the session.
pub type InSender<E> = Sender<InMessage<E>>;

/// Receives, inside the session, what the behaviour sends.
pub type InReceiver<E> = Receiver<InMessage<E>>;

/// Sends, inside the session, messages to its counterparty.
pub type OutSender = Sender<Vec<u8>>;

/// Receives what the session sends to its counterparty.
pub type OutReceiver = Receiver<Vec<u8>>;

/// What one look into a channel finds.
#[derive(Debug, PartialEq, Eq)]
pub enum Observed<T> {
    /// No message is there yet.
    Nothing,
    /// The channel is empty, and no message will come.
    Closed,
    /// The oldest message, which leaves the channel.
    Message(T),
}

/// What went through a `Sender`.
#[verifier::ext_equal]
pub struct Sent<T> {
    /// The messages that the channel took, oldest first.
    pub accepted: Seq<T>,
    /// Whether the channel has turned a message away.
    pub refused: bool,
}

impl<T> Sent<T> {
    /// Nothing has been sent.
    pub open spec fn empty() -> Self {
        Sent { accepted: Seq::empty(), refused: false }
    }

    /// `after` is what `self` becomes when `message` is offered and `taken` says whether the
    /// channel took it. A channel that has turned one message away takes no other.
    pub open spec fn offered(self, message: T, taken: bool, after: Self) -> bool {
        if taken {
            &&& !self.refused
            &&& after == Sent { accepted: self.accepted.push(message), refused: false }
        } else {
            after == Sent { accepted: self.accepted, refused: true }
        }
    }

    /// What a sole sender of a channel with this stream can have sent: the first that the channel
    /// takes, and all of it once the channel has turned a message away.
    pub open spec fn within(self, stream: Stream<T>) -> bool {
        &&& stream.read(self.accepted).is_prefix_of(stream.taken)
        &&& self.refused ==> stream.read(self.accepted) == stream.taken
    }

    /// Everything in `self` also stands in `after`.
    pub open spec fn grows_to(self, after: Self) -> bool {
        &&& self.accepted.is_prefix_of(after.accepted)
        &&& self.refused ==> after.refused && after.accepted == self.accepted
    }
}

/// The messages among what was found.
pub open spec fn messages_in<T>(observed: Seq<Observed<T>>) -> Seq<T>
    decreases observed.len(),
{
    if observed.len() == 0 {
        Seq::empty()
    } else {
        let earlier = messages_in(observed.drop_last());
        match observed.last() {
            Observed::Message(message) => earlier.push(message),
            _ => earlier,
        }
    }
}

/// What was seen through a `Receiver`.
#[verifier::ext_equal]
pub struct Seen<T> {
    /// What each look found, oldest first.
    pub observed: Seq<Observed<T>>,
    /// Whether the channel was closed through this handle.
    pub closed: bool,
}

impl<T> Seen<T> {
    /// Nobody has looked yet, and the channel is open.
    pub open spec fn empty() -> Self {
        Seen { observed: Seq::empty(), closed: false }
    }

    /// The messages that were found, oldest first.
    pub open spec fn messages(self) -> Seq<T> {
        messages_in(self.observed)
    }

    /// A look has found the end of the messages.
    pub open spec fn ended(self) -> bool {
        self.observed.contains(Observed::Closed)
    }

    /// What the receiver of a channel with this stream can have seen: the first that the channel
    /// takes, and all of it at the end of the messages.
    pub open spec fn within(self, stream: Stream<T>) -> bool {
        &&& stream.read(self.messages()).is_prefix_of(stream.taken)
        &&& self.ended() ==> stream.read(self.messages()) == stream.taken
    }

    /// `after` is what `self` becomes when a look finds `found`. Behind the end of the messages
    /// there is no message.
    pub open spec fn looked(self, found: Observed<T>, after: Self) -> bool {
        &&& self.ended() ==> !(found is Message)
        &&& after == Seen { observed: self.observed.push(found), closed: self.closed }
    }

    /// The same, with the channel closed.
    pub open spec fn shut(self) -> Self {
        Seen { observed: self.observed, closed: true }
    }

    /// Everything in `self` also stands in `after`.
    pub open spec fn grows_to(self, after: Self) -> bool {
        &&& self.observed.is_prefix_of(after.observed)
        &&& self.closed ==> after.closed
    }
}

/// What was sent through a handle of tokio's. How it follows from the handle is left open: what is
/// known of it, the calls that tokio carries out tell.
pub closed spec fn sent_through<T>(handle: UnboundedSender<T>) -> Sent<T> {
    arbitrary::<spec_fn(UnboundedSender<T>) -> Sent<T>>()(handle)
}

/// What was seen through a handle of tokio's, left open in the same way.
pub closed spec fn seen_through<T>(handle: UnboundedReceiver<T>) -> Seen<T> {
    arbitrary::<spec_fn(UnboundedReceiver<T>) -> Seen<T>>()(handle)
}

/// The stream of the channel into which a handle of tokio's sends, left open in the same way.
pub closed spec fn stream_into<T>(handle: UnboundedSender<T>) -> Stream<T> {
    arbitrary::<spec_fn(UnboundedSender<T>) -> Stream<T>>()(handle)
}

/// The stream of the channel out of which a handle of tokio's receives, left open in the same
/// way.
pub closed spec fn stream_out_of<T>(handle: UnboundedReceiver<T>) -> Stream<T> {
    arbitrary::<spec_fn(UnboundedReceiver<T>) -> Stream<T>>()(handle)
}

/// The task behind `context` is woken through a handle of tokio's, when a message comes or none
/// will come any more. How it follows from the two is left open in the same way.
pub closed spec fn wakes<T>(handle: UnboundedReceiver<T>, context: Context<'_>) -> bool {
    arbitrary::<spec_fn(UnboundedReceiver<T>, Context<'_>) -> bool>()(handle, context)
}

/// The sending end of an unbounded channel.
#[verifier::reject_recursive_types(T)]
pub struct Sender<T> {
    channel: UnboundedSender<T>,
}

/// The receiving end of an unbounded channel.
#[verifier::reject_recursive_types(T)]
pub struct Receiver<T> {
    channel: UnboundedReceiver<T>,
}

impl<T> View for Sender<T> {
    type V = Sent<T>;

    closed spec fn view(&self) -> Sent<T> {
        sent_through(self.channel)
    }
}

impl<T> View for Receiver<T> {
    type V = Seen<T>;

    closed spec fn view(&self) -> Seen<T> {
        seen_through(self.channel)
    }
}

/// All of a sender lies in its handle.
pub(crate) proof fn lemma_sender_is_its_handle<T>(one: &Sender<T>, other: &Sender<T>)
    requires
        one.handle() == other.handle(),
    ensures
        *one == *other,
        one@ == sent_through(one.handle()),
        one.stream() == stream_into(one.handle()),
{
}

/// All of a receiver lies in its handle.
pub(crate) proof fn lemma_receiver_is_its_handle<T>(one: &Receiver<T>, other: &Receiver<T>)
    requires
        one.handle() == other.handle(),
    ensures
        *one == *other,
        one@ == seen_through(one.handle()),
        one.stream() == stream_out_of(one.handle()),
{
}

/// Calls tokio's `unbounded_channel`. The two handles are the ends of one channel, so that the
/// stream of the one is that of the other, and nothing has gone through either. The stream tells
/// of each message what `reader` reads off it, and no more: what a message holds for proofs only
/// may be made up from the stream itself, and then cannot be what the stream says.
#[verifier::external_body]
fn open_channel<T, R: Reads<T>>(reader: &R) -> (ends: (Sender<T>, Receiver<T>))
    ensures
        ends.0.stream() == ends.1.stream(),
        ends.0.stream().read_by(*reader),
        ends.0@ == Sent::<T>::empty(),
        ends.1@ == Seen::<T>::empty(),
        ends.0.wf(),
        ends.1.wf(),
{
    let (sender, receiver) = unbounded_channel();
    (Sender { channel: sender }, Receiver { channel: receiver })
}

/// Makes a channel and returns its two ends, which agree on what `reader` reads off the messages.
pub fn channel<T, R: Reads<T>>(reader: &R) -> (ends: (Sender<T>, Receiver<T>))
    ensures
        ends.0.stream() == ends.1.stream(),
        ends.0.stream().read_by(*reader),
        ends.0@ == Sent::<T>::empty(),
        ends.1@ == Seen::<T>::empty(),
        ends.0.wf(),
        ends.1.wf(),
        stream_into(ends.0.handle()) == stream_out_of(ends.1.handle()),
        forall|message: T|
            #[trigger] (stream_into(ends.0.handle()).reading)(message) == reader.reads(message),
        ends.0@.accepted.len() == 0 && !ends.0@.refused,
        ends.1@.observed.len() == 0 && !ends.1@.closed,
{
    open_channel(reader)
}

/// Makes a channel for messages to a session, whose errors `errors` reads.
pub fn in_channel<E: ErrorType, R: Reads<E>>(errors: R) -> (ends: (InSender<E>, InReceiver<E>))
    ensures
        ends.0.stream() == ends.1.stream(),
        ends.0.stream().read_by(AsMessage { errors }),
        ends.0@ == Sent::<InMessage<E>>::empty(),
        ends.1@ == Seen::<InMessage<E>>::empty(),
        ends.0.wf(),
        ends.1.wf(),
        stream_into(ends.0.handle()) == stream_out_of(ends.1.handle()),
        forall|bytes: Vec<u8>|
            #[trigger] (stream_into(ends.0.handle()).reading)(Ok(bytes)) == bytes@.push(1u8),
        forall|error: E|
            #[trigger] (stream_into(ends.0.handle()).reading)(Err(error)) == errors.reads(
                error,
            ).push(0u8),
        ends.0@.accepted.len() == 0 && !ends.0@.refused,
        ends.1@.observed.len() == 0 && !ends.1@.closed,
{
    channel(&AsMessage { errors })
}

/// Makes a channel for messages from a session.
pub fn out_channel() -> (ends: (OutSender, OutReceiver))
    ensures
        ends.0.stream() == ends.1.stream(),
        ends.0.stream().read_by(AsBytes),
        ends.0@ == Sent::<Vec<u8>>::empty(),
        ends.1@ == Seen::<Vec<u8>>::empty(),
        ends.0.wf(),
        ends.1.wf(),
        stream_into(ends.0.handle()) == stream_out_of(ends.1.handle()),
        forall|bytes: Vec<u8>|
            #[trigger] (stream_into(ends.0.handle()).reading)(bytes) == bytes@,
        ends.0@.accepted.len() == 0 && !ends.0@.refused,
        ends.1@.observed.len() == 0 && !ends.1@.closed,
{
    channel(&AsBytes)
}

impl<T> Sender<T> {
    /// What is read off all that this handle's channel takes over its life.
    pub closed spec fn stream(&self) -> Stream<T> {
        stream_into(self.channel)
    }

    /// What was sent through this handle is what its channel took, as far as it has come.
    pub open spec fn wf(&self) -> bool {
        self@.within(self.stream())
    }

    /// tokio's handle inside.
    pub closed spec fn handle(&self) -> UnboundedSender<T> {
        self.channel
    }

    /// Calls tokio's `UnboundedSender::send`. The channel takes the message, behind those that it
    /// took before, or hands it back; and once it has handed one back it takes no other, so that
    /// its stream tells of just those that it took until then. When it hands one back is left
    /// open: that lies with whoever holds the receiving end.
    #[verifier::external_body]
    fn offer(&mut self, message: T) -> (result: Result<(), T>)
        ensures
            final(self).stream() == old(self).stream(),
            old(self).wf() ==> final(self).wf(),
            old(self)@.offered(message, result is Ok, final(self)@),
            result is Err ==> result->Err_0 == message,
    {
        self.channel.send(message).map_err(|error| error.0)
    }

    /// Drops tokio's `UnboundedSender`. No other sender of the channel was ever made, so the
    /// channel takes nothing more, and its stream tells of just what was sent through this handle.
    /// The ledger is returned as it was.
    #[verifier::external_body]
    fn drop_handle(self) -> (sent: Ghost<Sent<T>>)
        ensures
            sent@ == self@,
            self.wf() ==> self.stream().read(sent@.accepted) == self.stream().taken,
    {
        drop(self.channel);
        Ghost(arbitrary())
    }

    /// Sends `message`, or hands it back where nobody can receive it any more.
    pub fn send(&mut self, message: T) -> (result: Result<(), T>)
        ensures
            final(self).stream() == old(self).stream(),
            old(self).wf() ==> final(self).wf(),
            old(self)@.offered(message, result is Ok, final(self)@),
            result is Err ==> result->Err_0 == message,
            result is Ok ==> !old(self)@.refused && !final(self)@.refused && final(self)@.accepted
                == old(self)@.accepted.push(message),
            result is Err ==> final(self)@.refused && final(self)@.accepted == old(self)@.accepted,
    {
        self.offer(message)
    }

    /// Hangs up: the channel takes nothing more. What remains is the ledger, which now lists all
    /// that the receiving end will ever find.
    pub fn hang_up(self) -> (sent: Ghost<Sent<T>>)
        ensures
            sent@ == self@,
            self.wf() ==> self.stream().read(sent@.accepted) == self.stream().taken,
    {
        self.drop_handle()
    }

    /// Gives up the ledger and returns tokio's handle.
    pub fn into_handle(self) -> (handle: UnboundedSender<T>)
        ensures
            handle == self.handle(),
    {
        self.channel
    }
}

impl<T> Receiver<T> {
    /// What is read off all that this handle's channel takes over its life.
    pub closed spec fn stream(&self) -> Stream<T> {
        stream_out_of(self.channel)
    }

    /// What was received through this handle is what its channel took, as far as it has come.
    pub open spec fn wf(&self) -> bool {
        self@.within(self.stream())
    }

    /// tokio's handle inside.
    pub closed spec fn handle(&self) -> UnboundedReceiver<T> {
        self.channel
    }

    /// Calls tokio's `UnboundedReceiver::recv` and, on the future that it returns, `now_or_never`
    /// of futures. The result is what one look finds: the messages come in the order in which the
    /// channel took them, and their end only when all of them have come and no other can. Which of
    /// the three it is otherwise lies with whoever holds the sending ends, and with tokio, which
    /// may also find nothing where a task has used up its budget.
    #[verifier::external_body]
    fn look(&mut self) -> (found: Observed<T>)
        ensures
            final(self).stream() == old(self).stream(),
            old(self).wf() ==> final(self).wf(),
            old(self)@.looked(found, final(self)@),
    {
        match self.channel.recv().now_or_never() {
            None => Observed::Nothing,
            Some(None) => Observed::Closed,
            Some(Some(message)) => Observed::Message(message),
        }
    }

    /// Calls tokio's `UnboundedReceiver::poll_recv`. The result is what one look finds, as for
    /// `look`; and where it finds nothing, the task behind `context` is the one to be woken.
    #[verifier::external_body]
    fn look_waiting(&mut self, context: &mut Context<'_>) -> (found: Observed<T>)
        ensures
            final(self).stream() == old(self).stream(),
            old(self).wf() ==> final(self).wf(),
            old(self)@.looked(found, final(self)@),
            found is Nothing ==> wakes(final(self).handle(), *old(context)),
    {
        match self.channel.poll_recv(context) {
            Poll::Pending => Observed::Nothing,
            Poll::Ready(None) => Observed::Closed,
            Poll::Ready(Some(message)) => Observed::Message(message),
        }
    }

    /// Calls tokio's `UnboundedReceiver::close`, after which the channel takes no message; those
    /// that it holds can still be received.
    #[verifier::external_body]
    fn shut_channel(&mut self)
        ensures
            final(self).stream() == old(self).stream(),
            old(self).wf() ==> final(self).wf(),
            final(self)@ == old(self)@.shut(),
    {
        self.channel.close()
    }

    /// Looks once for a message that is already there.
    pub fn observe(&mut self) -> (found: Observed<T>)
        ensures
            final(self).stream() == old(self).stream(),
            old(self).wf() ==> final(self).wf(),
            old(self)@.looked(found, final(self)@),
            final(self)@.observed == old(self)@.observed.push(found),
            final(self)@.closed == old(self)@.closed,
            found is Message ==> forall|i: int|
                0 <= i < old(self)@.observed.len()
                    ==> !((#[trigger] old(self)@.observed[i]) is Closed),
    {
        self.look()
    }

    /// Looks once for a message. Where there is none, tokio wakes the task behind `context` when
    /// that changes.
    pub fn poll(&mut self, context: &mut Context<'_>) -> (found: Observed<T>)
        ensures
            final(self).stream() == old(self).stream(),
            old(self).wf() ==> final(self).wf(),
            old(self)@.looked(found, final(self)@),
            final(self)@.observed == old(self)@.observed.push(found),
            final(self)@.closed == old(self)@.closed,
            found is Message ==> forall|i: int|
                0 <= i < old(self)@.observed.len()
                    ==> !((#[trigger] old(self)@.observed[i]) is Closed),
            found is Nothing ==> wakes(final(self).handle(), *old(context)),
    {
        self.look_waiting(context)
    }

    /// Closes the channel: it takes no further message.
    pub fn close(&mut self)
        ensures
            final(self).stream() == old(self).stream(),
            old(self).wf() ==> final(self).wf(),
            final(self)@ == old(self)@.shut(),
            final(self)@.closed,
            final(self)@.observed == old(self)@.observed,
    {
        self.shut_channel()
    }

    /// Gives up the ledger and returns tokio's handle.
    pub fn into_handle(self) -> (handle: UnboundedReceiver<T>)
        ensures
            handle == self.handle(),
    {
        self.channel
    }
}

} // verus!
