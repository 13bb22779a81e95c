//! The behaviours that come with the library, and the two checks that they are made of.

use crate::behaviour::{BehaviourFunction, Chain, Ledger, Pause};
use crate::channel::{ErrorType, InMessage, InSender, Observed, OutReceiver, Seen, Sent};
use crate::outcome::{Failure, Outcome};
use core::marker::PhantomData;
use vstd::prelude::*;

verus! {

/// How long, in milliseconds, a session has to disconnect.
pub const DISCONNECT_MILLIS: u64 = 5050;

/// `message` is what becomes of `data`: its bytes, or, where it has none, the error that `from`
/// makes of the reason.
pub open spec fn converts_to<T: TryInto<Vec<u8>>, E: ErrorType + From<T::Error>>(
    data: T,
    message: InMessage<E>,
) -> bool {
    exists|converted: Result<Vec<u8>, T::Error>| #[trigger]
        call_ensures(T::try_into, (data,), converted) && match converted {
            Ok(bytes) => message == InMessage::<E>::Ok(bytes),
            Err(error) => message is Err && call_ensures(E::from, (error,), message->Err_0),
        }
}

/// Converts `data` to bytes, and transforms any error using `from`.
pub fn convert<T: TryInto<Vec<u8>>, E: ErrorType + From<T::Error>>(data: T) -> (message: InMessage<
    E,
>)
    ensures
        converts_to(data, message),
        exists|converted: Result<Vec<u8>, T::Error>| #[trigger]
            call_ensures(T::try_into, (data,), converted) && match converted {
                Ok(bytes) => message == InMessage::<E>::Ok(bytes),
                Err(error) => message is Err && call_ensures(E::from, (error,), message->Err_0),
            },
{
    let converted = data.try_into();
    match converted {
        Ok(bytes) => Ok(bytes),
        Err(error) => Err(E::from(error)),
    }
}

/// What becomes of a sender's ledger when `data` is converted and offered, and `taken` says
/// whether the channel took it.
pub open spec fn offers<T: TryInto<Vec<u8>>, E: ErrorType + From<T::Error>>(
    data: T,
    before: Sent<InMessage<E>>,
    taken: bool,
    after: Sent<InMessage<E>>,
) -> bool {
    exists|message: InMessage<E>| #[trigger]
        converts_to(data, message) && before.offered(message, taken, after)
}

/// Sends `data` via `sender`, after converting it to bytes and transforming any error using
/// `from`. Fails if the send fails.
pub fn send_data<T: TryInto<Vec<u8>>, E: ErrorType + From<T::Error>>(
    sender: &mut InSender<E>,
    data: T,
) -> (outcome: Outcome)
    ensures
        final(sender).stream() == old(sender).stream(),
        old(sender).wf() ==> final(sender).wf(),
        offers(data, old(sender)@, outcome is Ok, final(sender)@),
        outcome is Err ==> outcome->Err_0 == Failure::SendFailed,
        outcome is Err ==> final(sender)@.refused,
        outcome is Err ==> final(sender)@.accepted == old(sender)@.accepted,
        outcome is Ok ==> {
            &&& !old(sender)@.refused && !final(sender)@.refused
            &&& final(sender)@.accepted.len() == old(sender)@.accepted.len() + 1
            &&& final(sender)@.accepted.drop_last() == old(sender)@.accepted
            &&& exists|converted: Result<Vec<u8>, T::Error>| #[trigger]
                call_ensures(T::try_into, (data,), converted) && match converted {
                    Ok(bytes) => final(sender)@.accepted.last() == InMessage::<E>::Ok(bytes),
                    Err(error) => final(sender)@.accepted.last() is Err && call_ensures(
                        E::from,
                        (error,),
                        final(sender)@.accepted.last()->Err_0,
                    ),
                }
        },
{
    match sender.send(convert(data)) {
        Ok(()) => Ok(()),
        Err(_) => Err(Failure::SendFailed),
    }
}

/// What follows from `found` where a message that passes `predicate` should be there.
pub open spec fn checks_to<P: FnOnce(Vec<u8>) -> bool>(
    found: Observed<Vec<u8>>,
    predicate: P,
    outcome: Outcome,
) -> bool {
    match found {
        Observed::Nothing => outcome == Outcome::Err(Failure::NoMessage),
        Observed::Closed => outcome == Outcome::Err(Failure::SessionClosed),
        Observed::Message(message) => {
            ||| outcome is Ok && call_ensures(predicate, (message,), true)
            ||| outcome == Outcome::Err(Failure::UnexpectedMessage) && call_ensures(
                predicate,
                (message,),
                false,
            )
        },
    }
}

/// What becomes of a receiver's ledger, and what follows, when a message that passes `predicate`
/// should be there.
pub open spec fn finds<P: FnOnce(Vec<u8>) -> bool>(
    before: Seen<Vec<u8>>,
    predicate: P,
    after: Seen<Vec<u8>>,
    outcome: Outcome,
) -> bool {
    exists|found: Observed<Vec<u8>>| #[trigger]
        before.looked(found, after) && checks_to(found, predicate, outcome)
}

/// Checks that what was found is a message, and that it passes `predicate`.
pub fn check_message<P: FnOnce(Vec<u8>) -> bool>(
    found: Observed<Vec<u8>>,
    predicate: P,
) -> (outcome: Outcome)
    requires
        found is Message ==> call_requires(predicate, (found->Message_0,)),
    ensures
        checks_to(found, predicate, outcome),
        found is Nothing <==> outcome == Outcome::Err(Failure::NoMessage),
        found is Closed <==> outcome == Outcome::Err(Failure::SessionClosed),
        outcome is Ok ==> found is Message && call_ensures(predicate, (found->Message_0,), true),
        outcome is Err && found is Message ==> outcome->Err_0 is UnexpectedMessage
            && call_ensures(predicate, (found->Message_0,), false),
{
    match found {
        Observed::Nothing => Err(Failure::NoMessage),
        Observed::Closed => Err(Failure::SessionClosed),
        Observed::Message(message) => if predicate(message) {
            Ok(())
        } else {
            Err(Failure::UnexpectedMessage)
        },
    }
}

/// Asserts that the receiver can _immediately_ provide a message which passes the provided
/// `predicate`. Thus the message must already have been sent by the session being tested.
pub fn assert_receive<P: FnOnce(Vec<u8>) -> bool>(
    out_receiver: &mut OutReceiver,
    predicate: P,
) -> (outcome: Outcome)
    requires
        forall|message: Vec<u8>| call_requires(predicate, (message,)),
    ensures
        final(out_receiver).stream() == old(out_receiver).stream(),
        old(out_receiver).wf() ==> final(out_receiver).wf(),
        finds(old(out_receiver)@, predicate, final(out_receiver)@, outcome),
        final(out_receiver)@.closed == old(out_receiver)@.closed,
        final(out_receiver)@.observed.len() == old(out_receiver)@.observed.len() + 1,
        final(out_receiver)@.observed.drop_last() == old(out_receiver)@.observed,
        final(out_receiver)@.observed.last() is Nothing <==> outcome == Outcome::Err(
            Failure::NoMessage,
        ),
        final(out_receiver)@.observed.last() is Closed <==> outcome == Outcome::Err(
            Failure::SessionClosed,
        ),
        outcome is Ok ==> final(out_receiver)@.observed.last() is Message && call_ensures(
            predicate,
            (final(out_receiver)@.observed.last()->Message_0,),
            true,
        ),
        outcome is Err && final(out_receiver)@.observed.last() is Message
            ==> outcome->Err_0 is UnexpectedMessage && call_ensures(
            predicate,
            (final(out_receiver)@.observed.last()->Message_0,),
            false,
        ),
{
    let found = out_receiver.observe();
    check_message(found, predicate)
}

/// What follows from `found` where the session should have disconnected.
pub open spec fn disconnected(found: Observed<Vec<u8>>) -> Outcome {
    match found {
        Observed::Closed => Ok(()),
        _ => Err(Failure::StillConnected),
    }
}

/// What becomes of a receiver's ledger, and what follows, when the session should have
/// disconnected.
pub open spec fn finds_end(
    before: Seen<Vec<u8>>,
    after: Seen<Vec<u8>>,
    outcome: Outcome,
) -> bool {
    exists|found: Observed<Vec<u8>>| #[trigger]
        before.looked(found, after) && outcome == disconnected(found)
}

/// Checks that what was found is the end of the messages.
pub fn check_disconnected(found: Observed<Vec<u8>>) -> (outcome: Outcome)
    ensures
        outcome == disconnected(found),
        outcome is Ok <==> found is Closed,
        outcome is Err ==> outcome->Err_0 is StillConnected,
{
    match found {
        Observed::Closed => Ok(()),
        _ => Err(Failure::StillConnected),
    }
}

/// Sends its data, and then yields.
#[derive(Debug, PartialEq, Eq)]
pub struct Sending<T, E, C> {
    /// What is still to be sent.
    pub data: Option<T>,
    /// Where it is sent to.
    pub kind: PhantomData<(E, C)>,
}

/// Yields, and then checks that a message is there.
#[derive(Debug, PartialEq, Eq)]
pub struct Receiving<P, E, C> {
    /// What the message has to pass.
    pub predicate: Option<P>,
    /// Whether it has yielded.
    pub yielded: bool,
    /// Where the message comes from.
    pub kind: PhantomData<(E, C)>,
}

/// How far a sleep with a stopped clock has come.
#[derive(Debug, Clone, Copy, PartialEq, Eq, Structural)]
pub enum SleepStage {
    /// The clock runs.
    Awake,
    /// The clock stands still.
    Frozen,
    /// The time has passed, and the clock stands still.
    Rested,
    /// The clock runs again.
    Thawed,
}

/// Stops the clock, sleeps, and lets the clock run again.
#[derive(Debug, PartialEq, Eq)]
pub struct SleepInPause<E, C> {
    /// How long it sleeps.
    pub millis: u64,
    /// How far it has come.
    pub stage: SleepStage,
    /// Where it runs.
    pub kind: PhantomData<(E, C)>,
}

/// Checks that the session has disconnected.
#[derive(Debug, PartialEq, Eq)]
pub struct ExpectDisconnect<E, C> {
    /// Where it runs.
    pub kind: PhantomData<(E, C)>,
}

/// Has one step carried out, and nothing else.
#[derive(Debug, PartialEq, Eq)]
pub struct Custom<E, C> {
    /// The step, as long as it is to come.
    pub step: Option<C>,
    /// Where it runs.
    pub kind: PhantomData<E>,
}

impl<T: TryInto<Vec<u8>>, E: ErrorType + From<T::Error>, C> BehaviourFunction<E, C> for Sending<
    T,
    E,
    C,
> {
    open spec fn ready(&self) -> bool {
        true
    }

    open spec fn bound(&self) -> nat {
        if self.data is Some {
            1
        } else {
            0
        }
    }

    open spec fn segment(
        pre: Self,
        before: Ledger<E>,
        post: Self,
        after: Ledger<E>,
        pause: Pause<C>,
    ) -> bool {
        &&& post.data is None
        &&& match pre.data {
            Some(data) => {
                &&& after.seen == before.seen
                &&& pause == Pause::<C>::Yield || pause == Pause::<C>::Finish(
                    Err(Failure::SendFailed),
                )
                &&& offers(data, before.sent, pause is Yield, after.sent)
            },
            None => after == before && pause == Pause::<C>::Finish(Ok(())),
        }
    }

    proof fn progress(pre: Self, before: Ledger<E>, post: Self, after: Ledger<E>, pause: Pause<C>) {
    }

    fn resume(&mut self, in_sender: &mut InSender<E>, out_receiver: &mut OutReceiver) -> (pause:
        Pause<C>)
        ensures
            final(self).data is None,
            final(out_receiver)@ == old(out_receiver)@,
            old(self).data is None ==> final(in_sender)@ == old(in_sender)@ && pause
                == Pause::<C>::Finish(Ok(())),
            old(self).data is Some ==> pause == Pause::<C>::Yield || pause == Pause::<C>::Finish(
                Err(Failure::SendFailed),
            ),
            old(self).data is Some && pause is Finish ==> {
                &&& final(in_sender)@.refused
                &&& final(in_sender)@.accepted == old(in_sender)@.accepted
            },
            old(self).data is Some && pause is Yield ==> {
                &&& !final(in_sender)@.refused
                &&& final(in_sender)@.accepted.len() == old(in_sender)@.accepted.len() + 1
                &&& final(in_sender)@.accepted.drop_last() == old(in_sender)@.accepted
                &&& exists|converted: Result<Vec<u8>, T::Error>| #[trigger]
                    call_ensures(T::try_into, (old(self).data->0,), converted) && match converted {
                        Ok(bytes) => final(in_sender)@.accepted.last() == InMessage::<E>::Ok(bytes),
                        Err(error) => final(in_sender)@.accepted.last() is Err && call_ensures(
                            E::from,
                            (error,),
                            final(in_sender)@.accepted.last()->Err_0,
                        ),
                    }
            },
    {
        match self.data.take() {
            Some(data) => match send_data(in_sender, data) {
                Ok(()) => Pause::Yield,
                Err(failure) => Pause::Finish(Err(failure)),
            },
            None => Pause::Finish(Ok(())),
        }
    }
}

impl<P: FnOnce(Vec<u8>) -> bool, E: ErrorType, C> Receiving<P, E, C> {
    /// A segment of receiving: first it yields, and then it looks.
    pub open spec fn receives(
        pre: Self,
        before: Ledger<E>,
        post: Self,
        after: Ledger<E>,
        pause: Pause<C>,
    ) -> bool {
        &&& after.sent == before.sent
        &&& post.yielded
        &&& if !pre.yielded {
            &&& post.predicate == pre.predicate
            &&& after.seen == before.seen
            &&& pause == Pause::<C>::Yield
        } else {
            &&& post.predicate is None
            &&& pause is Finish
            &&& match pre.predicate {
                Some(predicate) => finds(before.seen, predicate, after.seen, pause->Finish_0),
                None => after.seen == before.seen && pause->Finish_0 is Ok,
            }
        }
    }
}

impl<P: FnOnce(Vec<u8>) -> bool, E: ErrorType, C> BehaviourFunction<E, C> for Receiving<P, E, C> {
    open spec fn ready(&self) -> bool {
        self.predicate is Some ==> forall|message: Vec<u8>|
            call_requires(self.predicate->0, (message,))
    }

    open spec fn bound(&self) -> nat {
        if self.yielded {
            0
        } else {
            1
        }
    }

    open spec fn segment(
        pre: Self,
        before: Ledger<E>,
        post: Self,
        after: Ledger<E>,
        pause: Pause<C>,
    ) -> bool {
        Receiving::receives(pre, before, post, after, pause)
    }

    proof fn progress(pre: Self, before: Ledger<E>, post: Self, after: Ledger<E>, pause: Pause<C>) {
    }

    fn resume(&mut self, in_sender: &mut InSender<E>, out_receiver: &mut OutReceiver) -> (pause:
        Pause<C>)
        ensures
            Receiving::receives(
                *old(self),
                Ledger::of(*old(in_sender), *old(out_receiver)),
                *final(self),
                Ledger::of(*final(in_sender), *final(out_receiver)),
                pause,
            ),
            final(self).yielded,
            final(in_sender)@ == old(in_sender)@,
            !old(self).yielded ==> {
                &&& pause == Pause::<C>::Yield
                &&& final(self).predicate == old(self).predicate
                &&& final(out_receiver)@ == old(out_receiver)@
            },
            old(self).yielded ==> pause is Finish && final(self).predicate is None,
            old(self).yielded && old(self).predicate is None ==> {
                &&& pause == Pause::<C>::Finish(Ok(()))
                &&& final(out_receiver)@ == old(out_receiver)@
            },
            old(self).yielded && old(self).predicate is Some ==> {
                &&& final(out_receiver)@.closed == old(out_receiver)@.closed
                &&& final(out_receiver)@.observed.len() == old(out_receiver)@.observed.len() + 1
                &&& final(out_receiver)@.observed.drop_last() == old(out_receiver)@.observed
                &&& match final(out_receiver)@.observed.last() {
                    Observed::Nothing => pause == Pause::<C>::Finish(Err(Failure::NoMessage)),
                    Observed::Closed => pause == Pause::<C>::Finish(Err(Failure::SessionClosed)),
                    Observed::Message(message) => {
                        ||| pause->Finish_0 is Ok && call_ensures(
                            old(self).predicate->0,
                            (message,),
                            true,
                        )
                        ||| pause == Pause::<C>::Finish(Err(Failure::UnexpectedMessage))
                            && call_ensures(old(self).predicate->0, (message,), false)
                    },
                }
            },
    {
        if !self.yielded {
            self.yielded = true;
            return Pause::Yield;
        }
        match self.predicate.take() {
            Some(predicate) => Pause::Finish(assert_receive(out_receiver, predicate)),
            None => Pause::Finish(Ok(())),
        }
    }
}

impl<E: ErrorType, C> BehaviourFunction<E, C> for SleepInPause<E, C> {
    open spec fn ready(&self) -> bool {
        true
    }

    open spec fn bound(&self) -> nat {
        match self.stage {
            SleepStage::Awake => 3,
            SleepStage::Frozen => 2,
            SleepStage::Rested => 1,
            SleepStage::Thawed => 0,
        }
    }

    open spec fn segment(
        pre: Self,
        before: Ledger<E>,
        post: Self,
        after: Ledger<E>,
        pause: Pause<C>,
    ) -> bool {
        &&& after == before
        &&& post.millis == pre.millis
        &&& match pre.stage {
            SleepStage::Awake => post.stage is Frozen && pause is FreezeClock,
            SleepStage::Frozen => post.stage is Rested && pause == Pause::<C>::Sleep(pre.millis),
            SleepStage::Rested => post.stage is Thawed && pause is ThawClock,
            SleepStage::Thawed => post.stage is Thawed && pause == Pause::<C>::Finish(Ok(())),
        }
    }

    proof fn progress(pre: Self, before: Ledger<E>, post: Self, after: Ledger<E>, pause: Pause<C>) {
    }

    fn resume(&mut self, in_sender: &mut InSender<E>, out_receiver: &mut OutReceiver) -> (pause:
        Pause<C>)
        ensures
            final(in_sender)@ == old(in_sender)@,
            final(out_receiver)@ == old(out_receiver)@,
            final(self).millis == old(self).millis,
            old(self).stage is Awake ==> pause is FreezeClock && final(self).stage is Frozen,
            old(self).stage is Frozen ==> pause == Pause::<C>::Sleep(old(self).millis),
            old(self).stage is Frozen ==> final(self).stage is Rested,
            old(self).stage is Rested ==> pause is ThawClock && final(self).stage is Thawed,
            old(self).stage is Thawed ==> pause == Pause::<C>::Finish(Ok(())),
            old(self).stage is Thawed ==> final(self).stage is Thawed,
    {
        match self.stage {
            SleepStage::Awake => {
                self.stage = SleepStage::Frozen;
                Pause::FreezeClock
            },
            SleepStage::Frozen => {
                self.stage = SleepStage::Rested;
                Pause::Sleep(self.millis)
            },
            SleepStage::Rested => {
                self.stage = SleepStage::Thawed;
                Pause::ThawClock
            },
            SleepStage::Thawed => Pause::Finish(Ok(())),
        }
    }
}

impl<E: ErrorType, C> BehaviourFunction<E, C> for ExpectDisconnect<E, C> {
    open spec fn ready(&self) -> bool {
        true
    }

    open spec fn bound(&self) -> nat {
        0
    }

    open spec fn segment(
        pre: Self,
        before: Ledger<E>,
        post: Self,
        after: Ledger<E>,
        pause: Pause<C>,
    ) -> bool {
        &&& after.sent == before.sent
        &&& pause is Finish
        &&& finds_end(before.seen, after.seen, pause->Finish_0)
    }

    proof fn progress(pre: Self, before: Ledger<E>, post: Self, after: Ledger<E>, pause: Pause<C>) {
    }

    fn resume(&mut self, in_sender: &mut InSender<E>, out_receiver: &mut OutReceiver) -> (pause:
        Pause<C>)
        ensures
            final(in_sender)@ == old(in_sender)@,
            final(out_receiver)@.closed == old(out_receiver)@.closed,
            final(out_receiver)@.observed.len() == old(out_receiver)@.observed.len() + 1,
            final(out_receiver)@.observed.drop_last() == old(out_receiver)@.observed,
            pause == Pause::<C>::Finish(Ok(())) <==> final(out_receiver)@.observed.last() is Closed,
            !(final(out_receiver)@.observed.last() is Closed) ==> pause == Pause::<C>::Finish(
                Err(Failure::StillConnected),
            ),
    {
        let found = out_receiver.observe();
        Pause::Finish(check_disconnected(found))
    }
}

impl<E: ErrorType, C> BehaviourFunction<E, C> for Custom<E, C> {
    open spec fn ready(&self) -> bool {
        true
    }

    open spec fn bound(&self) -> nat {
        if self.step is Some {
            1
        } else {
            0
        }
    }

    open spec fn segment(
        pre: Self,
        before: Ledger<E>,
        post: Self,
        after: Ledger<E>,
        pause: Pause<C>,
    ) -> bool {
        &&& after == before
        &&& post.step is None
        &&& match pre.step {
            Some(step) => pause == Pause::Call(step),
            None => pause == Pause::<C>::Finish(Ok(())),
        }
    }

    proof fn progress(pre: Self, before: Ledger<E>, post: Self, after: Ledger<E>, pause: Pause<C>) {
    }

    fn resume(&mut self, in_sender: &mut InSender<E>, out_receiver: &mut OutReceiver) -> (pause:
        Pause<C>)
        ensures
            final(self).step is None,
            final(in_sender)@ == old(in_sender)@,
            final(out_receiver)@ == old(out_receiver)@,
            old(self).step is Some ==> pause == Pause::Call(old(self).step->0),
            old(self).step is None ==> pause == Pause::<C>::Finish(Ok(())),
    {
        match self.step.take() {
            Some(step) => Pause::Call(step),
            None => Pause::Finish(Ok(())),
        }
    }
}

/// Returns a behaviour which sends the provided `data`, and then yields.
pub fn send<T: TryInto<Vec<u8>>, E: ErrorType + From<T::Error>, C>(data: T) -> (behaviour: Sending<
    T,
    E,
    C,
>)
    ensures
        behaviour.data == Some(data),
        <Sending<T, E, C> as BehaviourFunction<E, C>>::ready(&behaviour),
{
    Sending { data: Some(data), kind: PhantomData }
}

/// Returns a behaviour which will assert that a message is waiting, and that that message matches
/// the provided `predicate`.
pub fn receive<E: ErrorType, P: FnOnce(Vec<u8>) -> bool, C>(predicate: P) -> (behaviour: Receiving<
    P,
    E,
    C,
>)
    ensures
        behaviour.predicate == Some(predicate),
        !behaviour.yielded,
        behaviour.ready() <==> forall|message: Vec<u8>| call_requires(predicate, (message,)),
{
    let behaviour = Receiving { predicate: Some(predicate), yielded: false, kind: PhantomData };
    assert(behaviour.predicate->0 == predicate);
    behaviour
}

/// Returns a behaviour which pauses the clock, sleeps for `millis` milliseconds, and then resumes
/// the clock. Allows testing of actions that occur after some time, such as heartbeats, without
/// actually having to wait for that amount of time.
pub fn sleep_in_pause<E: ErrorType, C>(millis: u64) -> (behaviour: SleepInPause<E, C>)
    ensures
        behaviour.millis == millis,
        behaviour.stage is Awake,
        behaviour.ready(),
{
    SleepInPause { millis, stage: SleepStage::Awake, kind: PhantomData }
}

/// Returns a behaviour which gives the session time to disconnect, and then asserts that it has.
pub fn wait_for_disconnect<E: ErrorType, C>() -> (behaviour: Chain<
    SleepInPause<E, C>,
    ExpectDisconnect<E, C>,
>)
    ensures
        behaviour.first.millis == DISCONNECT_MILLIS,
        behaviour.first.millis == 5050,
        behaviour.first.stage is Awake,
        !behaviour.passed_on,
        <Chain<SleepInPause<E, C>, ExpectDisconnect<E, C>> as BehaviourFunction<E, C>>::ready(
            &behaviour,
        ),
{
    Chain::new(sleep_in_pause(DISCONNECT_MILLIS), ExpectDisconnect { kind: PhantomData })
}

/// Makes a behaviour of a closure, or of whatever else whoever drives the behaviour can carry
/// out: its one step is to have that done.
pub fn into_behaviour<E: ErrorType, C>(closure: C) -> (behaviour: Custom<E, C>)
    ensures
        behaviour.step == Some(closure),
        behaviour.ready(),
{
    Custom { step: Some(closure), kind: PhantomData }
}

} // verus!
