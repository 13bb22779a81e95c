//! A session put to the test: how it is set up, and how the behaviour runs against it.

use crate::behaviour::{BehaviourFunction, Ledger, Pause};
use crate::channel::{
    self, in_channel, out_channel, ErrorType, InMessage, InReceiver, InSender, OutReceiver,
    OutSender, Seen, Sent,
};
use crate::ledger_laws;
use crate::outcome::Outcome;
use crate::reading::{self, AsBytes, AsMessage, Reads, Stream, Unread};
use core::future::Future;
use core::marker::PhantomData;
use crate::stream_laws;
use vstd::prelude::*;

verus! {

/// Creates a session which receives and sends messages on the provided receiver and sender
/// respectively.
pub trait SessionFactory<E: ErrorType, S: Future<Output = Result<(), E>>>: FnOnce(
    InReceiver<E>,
    OutSender,
) -> S {

}

impl<
    E: ErrorType,
    S: Future<Output = Result<(), E>>,
    F: FnOnce(InReceiver<E>, OutSender) -> S,
> SessionFactory<E, S> for F {

}

/// Lets a behaviour's sender hang up, once its receiver is closed.
fn hang_up_behind<E: ErrorType>(in_sender: InSender<E>, out_receiver: &OutReceiver) -> (sent: Ghost<
    Sent<InMessage<E>>,
>)
    requires
        out_receiver@.closed,
    ensures
        sent@ == in_sender@,
        in_sender.wf() ==> in_sender.stream().taken.len() == sent@.accepted.len(),
        in_sender.wf() ==> in_sender.stream().read(sent@.accepted) == in_sender.stream().taken,
{
    in_sender.hang_up()
}

/// A behaviour on its way against a session. It holds the two handles as long as it runs. When it
/// ends, well or not, its receiver is closed, and its sender hangs up: the session finds what the
/// behaviour sent, and then the end of the messages.
#[verifier::reject_recursive_types(E)]
#[verifier::reject_recursive_types(C)]
#[verifier::reject_recursive_types(B)]
pub struct Run<E: ErrorType, C, B: BehaviourFunction<E, C>> {
    behaviour: B,
    in_sender: Option<InSender<E>>,
    out_receiver: OutReceiver,
    outcome: Option<Outcome>,
    in_stream: Ghost<Stream<InMessage<E>>>,
    sent: Ghost<Sent<InMessage<E>>>,
    kind: PhantomData<C>,
}

impl<E: ErrorType, C, B: BehaviourFunction<E, C>> Run<E, C, B> {
    /// Either the behaviour can go on and has its sender, or it has ended, its sender is gone and
    /// its receiver closed.
    pub closed spec fn wf(&self) -> bool {
        &&& self.out_receiver.wf()
        &&& match self.in_sender {
            Some(in_sender) => {
                &&& self.outcome is None
                &&& self.behaviour.ready()
                &&& in_sender.wf()
                &&& in_sender.stream() == self.in_stream@
            },
            None => {
                &&& self.outcome is Some
                &&& self.out_receiver@.closed
                &&& self.in_stream@.read(self.sent@.accepted) == self.in_stream@.taken
            },
        }
    }

    /// How the behaviour ended, if it has.
    pub closed spec fn outcome(&self) -> Option<Outcome> {
        self.outcome
    }

    /// The behaviour, as far as it has come.
    pub closed spec fn behaviour(&self) -> B {
        self.behaviour
    }

    /// Whether the behaviour holds its sender.
    pub closed spec fn holds_sender(&self) -> bool {
        self.in_sender is Some
    }

    /// What went through the behaviour's handles.
    pub closed spec fn ledger(&self) -> Ledger<E> {
        match self.in_sender {
            Some(in_sender) => Ledger::of(in_sender, self.out_receiver),
            None => Ledger { sent: self.sent@, seen: self.out_receiver@ },
        }
    }

    /// The stream of the channel on which the behaviour sends.
    pub closed spec fn in_stream(&self) -> Stream<InMessage<E>> {
        self.in_stream@
    }

    /// The stream of the channel on which the behaviour receives.
    pub closed spec fn out_stream(&self) -> Stream<Vec<u8>> {
        self.out_receiver.stream()
    }

    /// What is said of a run is said of what it holds: its ledger and its streams are those of its
    /// handles as long as it holds both, and of its receiver in any case. Once it has ended, all
    /// that its channel took, as it is read, is what it sent.
    proof fn run_is_what_it_holds(&self)
        ensures
            self.outcome() == self.outcome,
            self.behaviour() == self.behaviour,
            self.holds_sender() <==> self.in_sender is Some,
            self.ledger().seen == channel::seen_through(self.out_receiver.handle()),
            self.out_stream() == channel::stream_out_of(self.out_receiver.handle()),
            self.in_sender is Some ==> self.ledger().sent == channel::sent_through(
                self.in_sender->0.handle(),
            ),
            self.wf() && self.in_sender is Some ==> self.in_stream() == channel::stream_into(
                self.in_sender->0.handle(),
            ),
            self.wf() && self.in_sender is None ==> self.outcome is Some
                && self.out_receiver@.closed && self.in_stream().taken.len()
                == self.ledger().sent.accepted.len() && forall|i: int|
                0 <= i < self.ledger().sent.accepted.len() ==> (self.in_stream().reading)(
                    #[trigger] self.ledger().sent.accepted[i],
                ) == self.in_stream().taken[i],
    {
        ledger_laws::receiver_is_its_handle(&self.out_receiver, &self.out_receiver);
        match self.in_sender {
            Some(in_sender) => ledger_laws::sender_is_its_handle(&in_sender, &in_sender),
            None => {
                let accepted = self.ledger().sent.accepted;
                ledger_laws::stream_reads_every_message(
                    self.in_stream(),
                    AsMessage { errors: Unread },
                    accepted,
                    arbitrary(),
                    arbitrary(),
                );
                assert forall|i: int| 0 <= i < accepted.len() && self.wf() implies (
                self.in_stream().reading)(#[trigger] accepted[i]) == self.in_stream().taken[i] by {
                    assert(self.in_stream().read(accepted)[i] == (self.in_stream().reading)(
                        accepted[i],
                    ));
                }
            },
        }
    }

    /// Once the behaviour has ended, and not before, it no longer holds its sender; and its
    /// receiver is closed.
    pub proof fn ended_is_disconnected(&self)
        requires
            self.wf(),
        ensures
            self.outcome() is Some <==> !self.holds_sender(),
            self.outcome() is Some ==> self.ledger().seen.closed,
            self.outcome() is None ==> self.behaviour().ready(),
    {
    }

    /// What the session receives is what the behaviour sent: message by message the same, as far
    /// as both have come and as `errors` tells errors apart. Once the behaviour has ended, or has
    /// been refused, there is no message but those; and where the session has then seen the end
    /// of the messages, it has received exactly those.
    pub proof fn session_receives_what_was_sent<R: Reads<E>>(
        &self,
        errors: R,
        in_receiver: &InReceiver<E>,
    )
        requires
            self.wf(),
            in_receiver.wf(),
            in_receiver.stream() == self.in_stream(),
            self.in_stream().read_by(AsMessage { errors }),
        ensures
            in_receiver@.messages().len() <= self.in_stream().taken.len(),
            forall|i: int|
                0 <= i < in_receiver@.messages().len() && i < self.ledger().sent.accepted.len()
                    ==> reading::same_message(
                    errors,
                    #[trigger] in_receiver@.messages()[i],
                    self.ledger().sent.accepted[i],
                ),
            in_receiver@.ended() ==> self.ledger().sent.accepted.len()
                <= in_receiver@.messages().len(),
            self.outcome() is Some || self.ledger().sent.refused
                ==> in_receiver@.messages().len() <= self.ledger().sent.accepted.len(),
    {
        let stream = self.in_stream();
        let received = in_receiver@.messages();
        let accepted = self.ledger().sent.accepted;
        assert forall|i: int|
            0 <= i < received.len() && i < accepted.len() implies reading::same_message(
            errors,
            #[trigger] received[i],
            accepted[i],
        ) by {
            assert(stream.read(received)[i] == stream.read(accepted)[i]);
            reading::alike_is_same(errors, stream, received[i], accepted[i]);
        }
    }

    /// What the behaviour receives is what the session sent: message by message the same bytes,
    /// as far as both have come. Where the session has been refused, there is no message but
    /// those; and where the behaviour has then seen the end of the messages, it has received
    /// exactly those.
    pub proof fn behaviour_receives_what_was_sent(&self, out_sender: &OutSender)
        requires
            self.wf(),
            out_sender.wf(),
            out_sender.stream() == self.out_stream(),
            self.out_stream().read_by(AsBytes),
        ensures
            self.ledger().seen.messages().len() <= self.out_stream().taken.len(),
            forall|i: int|
                0 <= i < self.ledger().seen.messages().len() && i < out_sender@.accepted.len()
                    ==> (#[trigger] self.ledger().seen.messages()[i])@ == out_sender@.accepted[i]@,
            self.ledger().seen.ended() ==> out_sender@.accepted.len()
                <= self.ledger().seen.messages().len(),
            out_sender@.refused ==> self.ledger().seen.messages().len()
                <= out_sender@.accepted.len(),
    {
        stream_laws::messages_arrive_as_sent(out_sender, &self.out_receiver);
    }

    /// Where the session has hung up, leaving the ledger `sent`, the behaviour receives no message
    /// but those that the session sent, in this order and with the same bytes; and where it has
    /// seen the end of the messages, it has received exactly those.
    pub proof fn behaviour_receives_no_more_than_was_sent(&self, sent: Sent<Vec<u8>>)
        requires
            self.wf(),
            self.out_stream().read(sent.accepted) == self.out_stream().taken,
            self.out_stream().read_by(AsBytes),
        ensures
            self.ledger().seen.messages().len() <= sent.accepted.len(),
            forall|i: int|
                0 <= i < self.ledger().seen.messages().len() ==> (
                #[trigger] self.ledger().seen.messages()[i])@ == sent.accepted[i]@,
            self.ledger().seen.ended() ==> self.ledger().seen.messages().len()
                == sent.accepted.len(),
    {
        stream_laws::nothing_is_added_or_lost(sent, &self.out_receiver);
    }

    /// Runs the behaviour's next segment. Where that is its last, the receiver is closed, and
    /// then the sender hangs up. A behaviour that has ended does nothing more, and reports its end
    /// again.
    pub fn resume(&mut self) -> (pause: Pause<C>)
        requires
            old(self).wf(),
        ensures
            final(self).wf(),
            match old(self).outcome() {
                Some(outcome) => pause == Pause::<C>::Finish(outcome) && *final(self) == *old(self),
                None => {
                    &&& final(self).in_stream() == old(self).in_stream()
                    &&& final(self).out_stream() == old(self).out_stream()
                    &&& final(self).holds_sender() <==> !(pause is Finish)
                    &&& final(self).outcome() == match pause {
                        Pause::Finish(outcome) => Some(outcome),
                        _ => None,
                    }
                    &&& exists|after: Ledger<E>| #[trigger]
                        B::segment(
                            old(self).behaviour(),
                            old(self).ledger(),
                            final(self).behaviour(),
                            after,
                            pause,
                        ) && final(self).ledger() == if pause is Finish {
                            after.shut()
                        } else {
                            after
                        }
                },
            },
            old(self).outcome() is None ==> exists|after: Ledger<E>|
                {
                    &&& #[trigger] B::segment(
                        old(self).behaviour(),
                        old(self).ledger(),
                        final(self).behaviour(),
                        after,
                        pause,
                    )
                    &&& final(self).ledger().sent == after.sent
                    &&& final(self).ledger().seen.observed == after.seen.observed
                    &&& final(self).ledger().seen.closed <==> pause is Finish || after.seen.closed
                },
    {
        match self.in_sender.take() {
            Some(mut in_sender) => {
                let pause = self.behaviour.resume(&mut in_sender, &mut self.out_receiver);
                let ghost after = Ledger::of(in_sender, self.out_receiver);
                match pause {
                    Pause::Finish(outcome) => {
                        self.out_receiver.close();
                        self.sent = hang_up_behind(in_sender, &self.out_receiver);
                        self.outcome = Some(outcome);
                    },
                    _ => {
                        self.in_sender = Some(in_sender);
                    },
                }
                assert(B::segment(
                    old(self).behaviour(),
                    old(self).ledger(),
                    self.behaviour(),
                    after,
                    pause,
                ));
                pause
            },
            None => match self.outcome {
                Some(outcome) => Pause::Finish(outcome),
                None => Pause::Finish(Ok(())),
            },
        }
    }

    /// Lends the behaviour's handles, for a step that the behaviour asks its driver to carry out.
    /// A behaviour that has ended has none to lend.
    pub fn handles(&mut self) -> (handles: Option<(&mut InSender<E>, &mut OutReceiver)>)
        requires
            old(self).wf(),
        ensures
            final(self).outcome() == old(self).outcome(),
            final(self).behaviour() == old(self).behaviour(),
            final(self).in_stream() == old(self).in_stream(),
            match handles {
                Some((in_sender, out_receiver)) => {
                    &&& old(self).outcome() is None
                    &&& old(self).in_stream() == in_sender.stream()
                    &&& old(self).out_stream() == out_receiver.stream()
                    &&& old(self).ledger() == Ledger::of(*in_sender, *out_receiver)
                    &&& old(self).ledger().sent == in_sender@
                    &&& old(self).ledger().seen == out_receiver@
                    &&& final(self).ledger().sent == final(in_sender)@
                    &&& final(self).ledger().seen == final(out_receiver)@
                    &&& in_sender.wf()
                    &&& out_receiver.wf()
                    &&& final(self).out_stream() == final(out_receiver).stream()
                    &&& final(self).ledger() == Ledger::of(*final(in_sender), *final(out_receiver))
                    &&& {
                        &&& final(in_sender).wf()
                        &&& final(out_receiver).wf()
                        &&& final(in_sender).stream() == in_sender.stream()
                    } ==> final(self).wf()
                },
                None => old(self).outcome() is Some && *final(self) == *old(self),
            },
    {
        match &mut self.in_sender {
            Some(in_sender) => Some((in_sender, &mut self.out_receiver)),
            None => None,
        }
    }
}

/// `test` is a session that `session_factory` returned, and a run of `behaviour` that has not
/// begun; the factory was handed the other ends of the run's two channels, through which nothing
/// has gone.
pub open spec fn sets_up<
    E: ErrorType,
    C,
    S: Future<Output = Result<(), E>>,
    F: SessionFactory<E, S>,
    B: BehaviourFunction<E, C>,
    R: Reads<E>,
>(session_factory: F, behaviour: B, errors: R, test: (S, Run<E, C, B>)) -> bool {
    &&& test.1.wf()
    &&& test.1.outcome() is None
    &&& test.1.behaviour() == behaviour
    &&& test.1.ledger() == Ledger::<E>::empty()
    &&& test.1.in_stream().read_by(AsMessage { errors })
    &&& test.1.out_stream().read_by(AsBytes)
    &&& exists|in_receiver: InReceiver<E>, out_sender: OutSender|
        {
            &&& #[trigger] call_ensures(session_factory, (in_receiver, out_sender), test.0)
            &&& test.1.in_stream() == in_receiver.stream()
            &&& test.1.out_stream() == out_sender.stream()
            &&& in_receiver@ == Seen::<InMessage<E>>::empty()
            &&& out_sender@ == Sent::<Vec<u8>>::empty()
            &&& in_receiver.wf()
            &&& out_sender.wf()
        }
}

/// Sets up the session that `session_factory` returns against `behaviour`: what the behaviour
/// sends goes to the session, and what the session sends to its counterparty the behaviour
/// receives. The session is to be awaited while the run is resumed to its end; `verdict` then
/// tells whether the session passes. Of an error that the behaviour sends, it is known that the
/// session receives an error in its place; `assert_behaviour_reading` tells which.
pub fn assert_behaviour<
    E: ErrorType,
    C,
    S: Future<Output = Result<(), E>>,
    F: SessionFactory<E, S>,
    B: BehaviourFunction<E, C>,
>(session_factory: F, behaviour: B) -> (test: (S, Run<E, C, B>))
    requires
        behaviour.ready(),
        forall|in_receiver: InReceiver<E>, out_sender: OutSender|
            call_requires(session_factory, (in_receiver, out_sender)),
    ensures
        sets_up(session_factory, behaviour, Unread, test),
        test.1.wf(),
        test.1.outcome() is None,
        test.1.holds_sender(),
        test.1.behaviour() == behaviour,
        test.1.ledger().sent.accepted.len() == 0 && !test.1.ledger().sent.refused,
        test.1.ledger().seen.observed.len() == 0 && !test.1.ledger().seen.closed,
        forall|bytes: Vec<u8>|
            #[trigger] (test.1.in_stream().reading)(Ok(bytes)) == bytes@.push(1u8),
        forall|error: E|
            #[trigger] (test.1.in_stream().reading)(Err(error)) == Seq::<u8>::empty().push(0u8),
        forall|bytes: Vec<u8>| #[trigger] (test.1.out_stream().reading)(bytes) == bytes@,
        exists|in_receiver: InReceiver<E>, out_sender: OutSender|
            {
                &&& #[trigger] call_ensures(session_factory, (in_receiver, out_sender), test.0)
                &&& test.1.in_stream() == channel::stream_out_of(in_receiver.handle())
                &&& test.1.out_stream() == channel::stream_into(out_sender.handle())
                &&& in_receiver@.observed.len() == 0 && !in_receiver@.closed
                &&& out_sender@.accepted.len() == 0 && !out_sender@.refused
                &&& in_receiver.wf()
                &&& out_sender.wf()
            },
{
    assert_behaviour_reading(session_factory, behaviour, Unread)
}

/// Does what `assert_behaviour` does, and tells the errors that are sent to the session apart as
/// `errors` does. Nothing is read when the test runs: that the errors can be read at all is what
/// makes them known at both ends.
pub fn assert_behaviour_reading<
    E: ErrorType,
    C,
    S: Future<Output = Result<(), E>>,
    F: SessionFactory<E, S>,
    B: BehaviourFunction<E, C>,
    R: Reads<E>,
>(session_factory: F, behaviour: B, errors: R) -> (test: (S, Run<E, C, B>))
    requires
        behaviour.ready(),
        forall|in_receiver: InReceiver<E>, out_sender: OutSender|
            call_requires(session_factory, (in_receiver, out_sender)),
    ensures
        sets_up(session_factory, behaviour, errors, test),
        test.1.wf(),
        test.1.outcome() is None,
        test.1.holds_sender(),
        test.1.behaviour() == behaviour,
        test.1.ledger().sent.accepted.len() == 0 && !test.1.ledger().sent.refused,
        test.1.ledger().seen.observed.len() == 0 && !test.1.ledger().seen.closed,
        forall|bytes: Vec<u8>|
            #[trigger] (test.1.in_stream().reading)(Ok(bytes)) == bytes@.push(1u8),
        forall|error: E|
            #[trigger] (test.1.in_stream().reading)(Err(error)) == errors.reads(error).push(0u8),
        forall|bytes: Vec<u8>| #[trigger] (test.1.out_stream().reading)(bytes) == bytes@,
        exists|in_receiver: InReceiver<E>, out_sender: OutSender|
            {
                &&& #[trigger] call_ensures(session_factory, (in_receiver, out_sender), test.0)
                &&& test.1.in_stream() == channel::stream_out_of(in_receiver.handle())
                &&& test.1.out_stream() == channel::stream_into(out_sender.handle())
                &&& in_receiver@.observed.len() == 0 && !in_receiver@.closed
                &&& out_sender@.accepted.len() == 0 && !out_sender@.refused
                &&& in_receiver.wf()
                &&& out_sender.wf()
            },
{
    let (in_sender, in_receiver) = in_channel::<E, R>(errors);
    let (out_sender, out_receiver) = out_channel();
    let ghost ends = (in_receiver, out_sender);
    let ghost in_stream = in_sender.stream();
    let session = session_factory(in_receiver, out_sender);
    let run = Run {
        behaviour,
        in_sender: Some(in_sender),
        out_receiver,
        outcome: None,
        in_stream: Ghost(in_stream),
        sent: Ghost(Sent::empty()),
        kind: PhantomData,
    };
    let test = (session, run);
    proof {
        let (in_receiver, out_sender) = ends;
        ledger_laws::receiver_is_its_handle(&in_receiver, &in_receiver);
        ledger_laws::sender_is_its_handle(&out_sender, &out_sender);
        assert(call_ensures(session_factory, (in_receiver, out_sender), test.0));
    }
    test
}

} // verus!
