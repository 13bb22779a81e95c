//! What holds of a channel's stream: how the messages that go in come out.

use crate::channel::{ErrorType, InMessage, Observed, Receiver, Seen, Sender, Sent};
use crate::outcome::{Failure, Outcome};
use crate::reading::{self, AsBytes, AsMessage, Reads, Stream};
use crate::steps;
use vstd::prelude::*;

verus! {

/// What one look adds to the messages.
proof fn lemma_look_adds<T>(before: Seen<T>, found: Observed<T>, after: Seen<T>)
    requires
        before.looked(found, after),
    ensures
        after.messages() == match found {
            Observed::Message(message) => before.messages().push(message),
            _ => before.messages(),
        },
        before.ended() ==> after.ended(),
        found is Closed ==> after.ended(),
{
    assert(after.observed.drop_last() =~= before.observed);
    assert(after.observed.last() == found);
    if before.ended() {
        let at = choose|at: int|
            0 <= at < before.observed.len() && before.observed[at] == Observed::<T>::Closed;
        assert(after.observed[at] == before.observed[at]);
    }
}

/// What was seen before a look fits the stream that fits what was seen after it.
proof fn lemma_within_before<T>(
    stream: Stream<T>,
    before: Seen<T>,
    found: Observed<T>,
    after: Seen<T>,
)
    requires
        before.looked(found, after),
        after.within(stream),
    ensures
        before.within(stream),
{
    lemma_look_adds(before, found, after);
    assert forall|i: int| 0 <= i < before.messages().len() implies stream.read(
        before.messages(),
    )[i] == stream.taken[i] by {
        assert(stream.read(after.messages())[i] == stream.taken[i]);
    }
    if before.ended() {
        assert(after.messages() == before.messages());
    }
}

/// The messages come in the order in which the channel took them: a look that finds a message
/// finds the one behind those that were received before, and one that finds the end of the
/// messages finds it only when all were received. Where all were received, no look finds another.
pub proof fn look_finds_the_next_message<T>(
    stream: Stream<T>,
    before: Seen<T>,
    found: Observed<T>,
    after: Seen<T>,
)
    requires
        before.looked(found, after),
        after.within(stream),
    ensures
        before.within(stream),
        after.messages() == match found {
            Observed::Message(message) => before.messages().push(message),
            _ => before.messages(),
        },
        found is Message ==> before.messages().len() < stream.taken.len() && (stream.reading)(
            found->Message_0,
        ) == stream.taken[before.messages().len() as int],
        found is Closed ==> before.messages().len() == stream.taken.len(),
        before.messages().len() == stream.taken.len() ==> !(found is Message),
{
    lemma_look_adds(before, found, after);
    lemma_within_before(stream, before, found, after);
    if found is Message {
        let next = before.messages().len() as int;
        assert(stream.read(after.messages())[next] == stream.taken[next]);
    }
}

/// A receive hands its predicate the next message of the stream, and nothing else; where it hands
/// it none, no message was taken. Where all of the stream has been received, a receive fails.
pub proof fn receive_judges_the_next_message<P: FnOnce(Vec<u8>) -> bool>(
    stream: Stream<Vec<u8>>,
    before: Seen<Vec<u8>>,
    predicate: P,
    after: Seen<Vec<u8>>,
    outcome: Outcome,
)
    requires
        steps::finds(before, predicate, after, outcome),
        after.within(stream),
        stream.read_by(AsBytes),
    ensures
        before.within(stream),
        match outcome {
            Ok(()) => judged_next(stream, before, predicate, after, true),
            Err(Failure::UnexpectedMessage) => judged_next(stream, before, predicate, after, false),
            Err(Failure::SessionClosed) => {
                &&& before.messages().len() == stream.taken.len()
                &&& after.messages() == before.messages()
            },
            Err(failure) => failure is NoMessage && after.messages() == before.messages(),
        },
        before.messages().len() == stream.taken.len() ==> outcome is Err && after.messages()
            == before.messages(),
{
    let found = choose|found: Observed<Vec<u8>>| #[trigger]
        before.looked(found, after) && steps::checks_to(found, predicate, outcome);
    look_finds_the_next_message(stream, before, found, after);
    if found is Message {
        assert((stream.reading)(found->Message_0) == AsBytes.reads(found->Message_0));
    }
}

/// One message was taken, with the bytes that stand next in the stream, and `predicate` can say
/// `verdict` to it.
pub open spec fn judged_next<P: FnOnce(Vec<u8>) -> bool>(
    stream: Stream<Vec<u8>>,
    before: Seen<Vec<u8>>,
    predicate: P,
    after: Seen<Vec<u8>>,
    verdict: bool,
) -> bool {
    let message = after.messages().last();
    &&& before.messages().len() < stream.taken.len()
    &&& after.messages() == before.messages().push(message)
    &&& message@ == stream.taken[before.messages().len() as int]
    &&& call_ensures(predicate, (message,), verdict)
}

/// What it is to judge the next message: one was taken, with the bytes that stand next in the
/// stream, behind those that were received before, and the predicate can say so of it.
pub proof fn judging_takes_the_next_bytes<P: FnOnce(Vec<u8>) -> bool>(
    stream: Stream<Vec<u8>>,
    before: Seen<Vec<u8>>,
    predicate: P,
    after: Seen<Vec<u8>>,
    verdict: bool,
)
    requires
        judged_next(stream, before, predicate, after, verdict),
    ensures
        before.messages().len() < stream.taken.len(),
        after.messages().len() == before.messages().len() + 1,
        after.messages().drop_last() == before.messages(),
        after.messages().last()@ == stream.taken[before.messages().len() as int],
        call_ensures(predicate, (after.messages().last(),), verdict),
{
    assert(after.messages().drop_last() =~= before.messages());
}

/// A series of receives that pass meets the messages of the stream one by one, in their order:
/// each predicate is handed the next message, and accepts it. Where that was all of the stream, a
/// further receive fails, and takes nothing.
pub proof fn receives_meet_the_stream<P: FnOnce(Vec<u8>) -> bool>(
    stream: Stream<Vec<u8>>,
    ledgers: Seq<Seen<Vec<u8>>>,
    predicates: Seq<P>,
)
    requires
        ledgers.len() == predicates.len() + 1,
        ledgers.last().within(stream),
        stream.read_by(AsBytes),
        forall|i: int|
            0 <= i < predicates.len() ==> steps::finds(
                ledgers[i],
                #[trigger] predicates[i],
                ledgers[i + 1],
                Ok(()),
            ),
    ensures
        ledgers[0].within(stream),
        ledgers.last().messages().len() == ledgers[0].messages().len() + predicates.len(),
        ledgers.last().messages().len() <= stream.taken.len(),
        ledgers[0].messages().is_prefix_of(ledgers.last().messages()),
        forall|at: int|
            ledgers[0].messages().len() <= at < ledgers.last().messages().len() ==> (
            #[trigger] ledgers.last().messages()[at])@ == stream.taken[at],
        forall|i: int|
            0 <= i < predicates.len() ==> call_ensures(
                #[trigger] predicates[i],
                (ledgers.last().messages()[ledgers[0].messages().len() + i],),
                true,
            ),
        ledgers.last().messages().len() == stream.taken.len() ==> forall|
            predicate: P,
            after: Seen<Vec<u8>>,
            outcome: Outcome,
        |
            #[trigger] steps::finds(ledgers.last(), predicate, after, outcome) && after.within(
                stream,
            ) ==> outcome is Err && after.messages() == ledgers.last().messages(),
    decreases predicates.len(),
{
    let received = ledgers.last().messages();
    if predicates.len() > 0 {
        let count = predicates.len() - 1;
        let fewer = ledgers.drop_last();
        receive_judges_the_next_message(
            stream,
            ledgers[count],
            predicates[count],
            ledgers[count + 1],
            Ok(()),
        );
        assert forall|i: int| 0 <= i < predicates.drop_last().len() implies steps::finds(
            fewer[i],
            #[trigger] predicates.drop_last()[i],
            fewer[i + 1],
            Ok(()),
        ) by {
            assert(predicates.drop_last()[i] == predicates[i]);
        }
        receives_meet_the_stream(stream, fewer, predicates.drop_last());
        assert forall|i: int| 0 <= i < predicates.len() implies call_ensures(
            #[trigger] predicates[i],
            (received[ledgers[0].messages().len() + i],),
            true,
        ) by {
            if i < count {
                assert(predicates.drop_last()[i] == predicates[i]);
            }
        }
    } else {
        assert(stream.read(received).len() == received.len());
    }
    if received.len() == stream.taken.len() {
        assert forall|predicate: P, after: Seen<Vec<u8>>, outcome: Outcome|
            #[trigger] steps::finds(ledgers.last(), predicate, after, outcome) && after.within(
                stream,
            ) implies outcome is Err && after.messages() == received by {
            receive_judges_the_next_message(stream, ledgers.last(), predicate, after, outcome);
        }
    }
}

/// What a series of sends that the channel takes adds to the ledger.
proof fn lemma_sends_add<T: TryInto<Vec<u8>>, E: ErrorType + From<T::Error>>(
    data: Seq<T>,
    ledgers: Seq<Sent<InMessage<E>>>,
)
    requires
        ledgers.len() == data.len() + 1,
        ledgers[0] == Sent::<InMessage<E>>::empty(),
        forall|i: int|
            0 <= i < data.len() ==> steps::offers(
                #[trigger] data[i],
                ledgers[i],
                true,
                ledgers[i + 1],
            ),
    ensures
        ledgers.last().accepted.len() == data.len(),
        forall|i: int|
            0 <= i < data.len() ==> steps::converts_to(
                #[trigger] data[i],
                ledgers.last().accepted[i],
            ),
    decreases data.len(),
{
    if data.len() > 0 {
        let count = data.len() - 1;
        assert(steps::offers(data[count], ledgers[count], true, ledgers[count + 1]));
        assert forall|i: int| 0 <= i < data.drop_last().len() implies steps::offers(
            #[trigger] data.drop_last()[i],
            ledgers.drop_last()[i],
            true,
            ledgers.drop_last()[i + 1],
        ) by {
            assert(data.drop_last()[i] == data[i]);
        }
        lemma_sends_add(data.drop_last(), ledgers.drop_last());
        assert forall|i: int| 0 <= i < data.len() implies steps::converts_to(
            #[trigger] data[i],
            ledgers.last().accepted[i],
        ) by {
            if i < count {
                assert(data.drop_last()[i] == data[i]);
            }
        }
    }
}

/// First in, first out: data that was sent piece by piece into a fresh channel, by a sender that
/// then hung up, comes out piece by piece, in this order, each as what it converts to, as far as
/// `errors` tells errors apart. Nothing else comes out; and at the end of the messages, all of it
/// has come out.
pub proof fn sends_come_out_in_order<
    T: TryInto<Vec<u8>>,
    E: ErrorType + From<T::Error>,
    R: Reads<E>,
>(
    errors: R,
    stream: Stream<InMessage<E>>,
    data: Seq<T>,
    ledgers: Seq<Sent<InMessage<E>>>,
    seen: Seen<InMessage<E>>,
)
    requires
        ledgers.len() == data.len() + 1,
        ledgers[0] == Sent::<InMessage<E>>::empty(),
        forall|i: int|
            0 <= i < data.len() ==> steps::offers(
                #[trigger] data[i],
                ledgers[i],
                true,
                ledgers[i + 1],
            ),
        stream.read_by(AsMessage { errors }),
        stream.read(ledgers.last().accepted) == stream.taken,
        seen.within(stream),
    ensures
        seen.messages().len() <= data.len(),
        forall|i: int|
            0 <= i < seen.messages().len() ==> {
                &&& steps::converts_to(data[i], ledgers.last().accepted[i])
                &&& reading::same_message(
                    errors,
                    #[trigger] seen.messages()[i],
                    ledgers.last().accepted[i],
                )
            },
        seen.ended() ==> seen.messages().len() == data.len(),
{
    lemma_sends_add(data, ledgers);
    let accepted = ledgers.last().accepted;
    assert forall|i: int| 0 <= i < seen.messages().len() implies {
        &&& steps::converts_to(data[i], accepted[i])
        &&& reading::same_message(errors, #[trigger] seen.messages()[i], accepted[i])
    } by {
        assert(steps::converts_to(data[i], accepted[i]));
        assert(stream.read(seen.messages())[i] == stream.read(accepted)[i]);
        reading::alike_is_same(errors, stream, seen.messages()[i], accepted[i]);
    }
}

/// One end of a channel receives what the other end sent: message by message the same, as they
/// are read and as far as both have come; and where the end of the messages has been seen, all of
/// them were received. Where the sender has been refused, nothing else is received.
pub proof fn messages_arrive_as_sent<T>(sender: &Sender<T>, receiver: &Receiver<T>)
    requires
        sender.wf(),
        receiver.wf(),
        sender.stream() == receiver.stream(),
    ensures
        forall|i: int|
            0 <= i < receiver@.messages().len() && i < sender@.accepted.len()
                ==> sender.stream().alike(
                #[trigger] receiver@.messages()[i],
                sender@.accepted[i],
            ),
        receiver@.ended() ==> sender@.accepted.len() <= receiver@.messages().len(),
        sender@.refused ==> receiver@.messages().len() <= sender@.accepted.len(),
{
    let stream = sender.stream();
    assert forall|i: int|
        0 <= i < receiver@.messages().len() && i < sender@.accepted.len() implies stream.alike(
        #[trigger] receiver@.messages()[i],
        sender@.accepted[i],
    ) by {
        assert(stream.read(receiver@.messages())[i] == stream.read(sender@.accepted)[i]);
    }
}

/// Where the sender has hung up, leaving the ledger `sent`, nothing else is received than what was
/// sent, message by message the same as they are read; and where the end of the messages has been
/// seen, all of it was received.
pub proof fn nothing_is_added_or_lost<T>(sent: Sent<T>, receiver: &Receiver<T>)
    requires
        receiver.wf(),
        receiver.stream().read(sent.accepted) == receiver.stream().taken,
    ensures
        receiver@.messages().len() <= sent.accepted.len(),
        forall|i: int|
            0 <= i < receiver@.messages().len() ==> receiver.stream().alike(
                #[trigger] receiver@.messages()[i],
                sent.accepted[i],
            ),
        receiver@.ended() ==> receiver@.messages().len() == sent.accepted.len(),
{
    let stream = receiver.stream();
    assert(stream.read(sent.accepted).len() == sent.accepted.len());
    assert forall|i: int| 0 <= i < receiver@.messages().len() implies stream.alike(
        #[trigger] receiver@.messages()[i],
        sent.accepted[i],
    ) by {
        assert(stream.read(receiver@.messages())[i] == stream.read(sent.accepted)[i]);
    }
}

/// What has been seen to end stays ended.
pub(crate) proof fn lemma_ended_stays<T>(before: Seen<T>, after: Seen<T>)
    requires
        before.ended(),
        before.grows_to(after),
    ensures
        after.ended(),
{
}

} // verus!
