//! What holds of the ledgers and of the handles that keep them.

use crate::behaviour::Ledger;
use crate::channel::{
    self, InMessage, InSender, Observed, OutReceiver, Receiver, Seen, Sender, Sent,
};
use crate::reading::{self, AsBytes, AsMessage, Reads, Stream, Unread};
use vstd::prelude::*;

verus! {

/// What a sender has sent, and into which channel, lies in tokio's handle and nowhere else: two
/// senders with the same handle are the same in both.
pub proof fn sender_is_its_handle<T>(one: &Sender<T>, other: &Sender<T>)
    requires
        one.handle() == other.handle(),
    ensures
        *one == *other,
        one@ == other@,
        one.stream() == other.stream(),
        one@ == channel::sent_through(one.handle()),
        one.stream() == channel::stream_into(one.handle()),
{
    channel::lemma_sender_is_its_handle(one, other);
}

/// What a receiver has seen, and of which channel, lies in tokio's handle and nowhere else: two
/// receivers with the same handle are the same in both.
pub proof fn receiver_is_its_handle<T>(one: &Receiver<T>, other: &Receiver<T>)
    requires
        one.handle() == other.handle(),
    ensures
        *one == *other,
        one@ == other@,
        one.stream() == other.stream(),
        one@ == channel::seen_through(one.handle()),
        one.stream() == channel::stream_out_of(one.handle()),
{
    channel::lemma_receiver_is_its_handle(one, other);
}

/// The ends of one channel: their handles have one stream, and the messages of each, as they are
/// read, stand in it from its beginning. A sender that was turned away has sent all of it, and a
/// receiver that saw the end has received all of it.
pub proof fn connected_ends_share_a_stream<T>(sender: &Sender<T>, receiver: &Receiver<T>)
    requires
        channel::stream_into(sender.handle()) == channel::stream_out_of(receiver.handle()),
    ensures
        sender.stream() == receiver.stream(),
        sender.wf() <==> {
            &&& sender@.accepted.len() <= sender.stream().taken.len()
            &&& forall|i: int|
                0 <= i < sender@.accepted.len() ==> (sender.stream().reading)(
                    #[trigger] sender@.accepted[i],
                ) == sender.stream().taken[i]
            &&& sender@.refused ==> sender@.accepted.len() == sender.stream().taken.len()
        },
        receiver.wf() <==> {
            &&& receiver@.messages().len() <= receiver.stream().taken.len()
            &&& forall|i: int|
                0 <= i < receiver@.messages().len() ==> (receiver.stream().reading)(
                    #[trigger] receiver@.messages()[i],
                ) == receiver.stream().taken[i]
            &&& receiver@.ended() ==> receiver@.messages().len() == receiver.stream().taken.len()
        },
{
    sender_is_its_handle(sender, sender);
    receiver_is_its_handle(receiver, receiver);
    sent_stands_in_the_stream(sender@, sender.stream());
    seen_stands_in_the_stream(receiver@, receiver.stream());
}

/// A ledger of what was sent fits a stream where its messages, as they are read, are the first of
/// the stream, and all of it once a message was turned away.
pub proof fn sent_stands_in_the_stream<T>(sent: Sent<T>, stream: Stream<T>)
    ensures
        sent.within(stream) <==> {
            &&& sent.accepted.len() <= stream.taken.len()
            &&& forall|i: int|
                0 <= i < sent.accepted.len() ==> (stream.reading)(#[trigger] sent.accepted[i])
                    == stream.taken[i]
            &&& sent.refused ==> sent.accepted.len() == stream.taken.len()
        },
{
    lemma_first_of_the_stream(sent.accepted, stream);
}

/// A ledger of what was seen fits a stream where its messages, as they are read, are the first of
/// the stream, and all of it once the end of the messages was seen.
pub proof fn seen_stands_in_the_stream<T>(seen: Seen<T>, stream: Stream<T>)
    ensures
        seen.within(stream) <==> {
            &&& seen.messages().len() <= stream.taken.len()
            &&& forall|i: int|
                0 <= i < seen.messages().len() ==> (stream.reading)(#[trigger] seen.messages()[i])
                    == stream.taken[i]
            &&& seen.ended() ==> seen.messages().len() == stream.taken.len()
        },
{
    lemma_first_of_the_stream(seen.messages(), stream);
}

/// Messages that, as they are read, are the first of a stream.
proof fn lemma_first_of_the_stream<T>(messages: Seq<T>, stream: Stream<T>)
    ensures
        stream.read(messages).is_prefix_of(stream.taken) <==> {
            &&& messages.len() <= stream.taken.len()
            &&& forall|i: int|
                0 <= i < messages.len() ==> (stream.reading)(#[trigger] messages[i])
                    == stream.taken[i]
        },
        stream.read(messages).is_prefix_of(stream.taken) && messages.len() == stream.taken.len()
            ==> stream.read(messages) == stream.taken,
        stream.read(messages) == stream.taken ==> messages.len() == stream.taken.len(),
{
    let read = stream.read(messages);
    assert(read.len() == messages.len());
    if read.is_prefix_of(stream.taken) {
        assert forall|i: int| 0 <= i < messages.len() implies (stream.reading)(
            #[trigger] messages[i],
        ) == stream.taken[i] by {
            assert(read[i] == stream.taken[i]);
        }
        if messages.len() == stream.taken.len() {
            assert(read =~= stream.taken);
        }
    }
    if messages.len() <= stream.taken.len() && (forall|i: int|
        0 <= i < messages.len() ==> (stream.reading)(#[trigger] messages[i]) == stream.taken[i]) {
        assert forall|i: int| 0 <= i < read.len() implies read[i] == stream.taken[i] by {
            assert((stream.reading)(messages[i]) == stream.taken[i]);
        }
    }
}

/// Each message is read by itself, and none is left out; two are alike where they read the same;
/// and a reader that reads for a stream reads every message.
pub proof fn stream_reads_every_message<T, R: Reads<T>>(
    stream: Stream<T>,
    reader: R,
    messages: Seq<T>,
    one: T,
    other: T,
)
    ensures
        stream.read(messages).len() == messages.len(),
        forall|i: int|
            0 <= i < messages.len() ==> #[trigger] stream.read(messages)[i] == (stream.reading)(
                messages[i],
            ),
        stream.alike(one, other) <==> (stream.reading)(one) == (stream.reading)(other),
        stream.read_by(reader) <==> forall|message: T|
            #[trigger] (stream.reading)(message) == reader.reads(message),
{
}

/// Bytes read the same only where they are the same; nothing is told of what is not read.
pub proof fn bytes_are_read_whole<T>(one: Vec<u8>, other: Vec<u8>, unread: T)
    ensures
        AsBytes.reads(one) == one@,
        AsBytes.reads(one) == AsBytes.reads(other) <==> one@ == other@,
        Unread.reads(unread).len() == 0,
{
}

/// Messages to the session read the same where both are the same bytes, or both errors that read
/// the same; and nowhere else.
pub proof fn messages_are_read_whole<E, R: Reads<E>>(
    reader: AsMessage<R>,
    one: InMessage<E>,
    other: InMessage<E>,
)
    ensures
        one is Ok ==> reader.reads(one) == one->Ok_0@.push(1u8),
        one is Err ==> reader.reads(one) == reader.errors.reads(one->Err_0).push(0u8),
        reader.reads(one) == reader.reads(other) <==> {
            ||| one is Ok && other is Ok && one->Ok_0@ == other->Ok_0@
            ||| one is Err && other is Err && reader.errors.reads(one->Err_0)
                == reader.errors.reads(other->Err_0)
        },
        reading::same_message(reader.errors, one, other) <==> reader.reads(one) == reader.reads(
            other,
        ),
{
    let first = reader.reads(one);
    let second = reader.reads(other);
    match one {
        Ok(bytes) => assert(first.drop_last() =~= bytes@),
        Err(error) => assert(first.drop_last() =~= reader.errors.reads(error)),
    }
    match other {
        Ok(bytes) => assert(second.drop_last() =~= bytes@),
        Err(error) => assert(second.drop_last() =~= reader.errors.reads(error)),
    }
    assert(first.last() == if one is Ok {
        1u8
    } else {
        0u8
    });
    assert(second.last() == if other is Ok {
        1u8
    } else {
        0u8
    });
}

/// A message that is offered is either added behind the others, which happens only where none was
/// turned away before, or turned away itself, and then nothing is added.
pub proof fn offer_adds_or_refuses<T>(before: Sent<T>, message: T, taken: bool, after: Sent<T>)
    ensures
        before.offered(message, taken, after) && taken <==> {
            &&& taken && !before.refused && !after.refused
            &&& after.accepted == before.accepted.push(message)
        },
        before.offered(message, taken, after) && !taken <==> {
            &&& !taken && after.refused
            &&& after.accepted == before.accepted
        },
{
}

/// A look adds what it found to what was found before, and nothing else; and it finds no message
/// where one before it found the end of the messages.
pub proof fn look_adds_what_it_found<T>(before: Seen<T>, found: Observed<T>, after: Seen<T>)
    ensures
        before.looked(found, after) <==> {
            &&& after.closed == before.closed
            &&& after.observed == before.observed.push(found)
            &&& found is Message ==> forall|i: int|
                0 <= i < before.observed.len() ==> !((#[trigger] before.observed[i]) is Closed)
        },
        before.ended() <==> exists|i: int|
            0 <= i < before.observed.len() && (#[trigger] before.observed[i]) is Closed,
{
    if before.ended() {
        let at = choose|at: int|
            0 <= at < before.observed.len() && before.observed[at] == Observed::<T>::Closed;
        assert(before.observed[at] is Closed);
    }
    if exists|i: int|
        0 <= i < before.observed.len() && (#[trigger] before.observed[i]) is Closed {
        let at = choose|i: int|
            0 <= i < before.observed.len() && (#[trigger] before.observed[i]) is Closed;
        assert(before.observed[at] == Observed::<T>::Closed);
    }
}

/// The messages that were received are those among what was found, each of them and in its place:
/// what was found earlier counts on its own, and behind it a message counts for itself and
/// anything else for nothing.
pub proof fn messages_are_those_found<T>(
    earlier: Seq<Observed<T>>,
    found: Observed<T>,
    seen: Seen<T>,
)
    ensures
        channel::messages_in(Seq::<Observed<T>>::empty()).len() == 0,
        found is Message ==> channel::messages_in(earlier.push(found)) == channel::messages_in(
            earlier,
        ).push(found->Message_0),
        !(found is Message) ==> channel::messages_in(earlier.push(found)) == channel::messages_in(
            earlier,
        ),
        seen.messages() == channel::messages_in(seen.observed),
{
    assert(earlier.push(found).drop_last() =~= earlier);
}

/// The ledger of a pair of handles is that of the one and that of the other; a fresh one is empty;
/// and closing the receiver changes nothing else.
pub proof fn ledger_is_both_handles<E>(
    in_sender: InSender<E>,
    out_receiver: OutReceiver,
    ledger: Ledger<E>,
)
    ensures
        Ledger::of(in_sender, out_receiver).sent == in_sender@,
        Ledger::of(in_sender, out_receiver).seen == out_receiver@,
        Ledger::<E>::empty().sent.accepted.len() == 0 && !Ledger::<E>::empty().sent.refused,
        Ledger::<E>::empty().seen.observed.len() == 0 && !Ledger::<E>::empty().seen.closed,
        ledger.shut().sent == ledger.sent,
        ledger.shut().seen.observed == ledger.seen.observed,
        ledger.shut().seen.closed,
{
}

/// A ledger grows where nothing in it is taken back: what was sent and found stays, in its place,
/// and a refusal or a closed channel stays what it is.
pub proof fn growing_takes_nothing_back<E>(before: Ledger<E>, after: Ledger<E>)
    ensures
        before.grows_to(after) <==> {
            &&& before.sent.accepted.len() <= after.sent.accepted.len()
            &&& forall|i: int|
                0 <= i < before.sent.accepted.len() ==> #[trigger] after.sent.accepted[i]
                    == before.sent.accepted[i]
            &&& before.sent.refused ==> after.sent.refused && after.sent.accepted.len()
                == before.sent.accepted.len()
            &&& before.seen.observed.len() <= after.seen.observed.len()
            &&& forall|i: int|
                0 <= i < before.seen.observed.len() ==> #[trigger] after.seen.observed[i]
                    == before.seen.observed[i]
            &&& before.seen.closed ==> after.seen.closed
        },
{
    if before.sent.accepted.len() == after.sent.accepted.len() && (forall|i: int|
        0 <= i < before.sent.accepted.len() ==> #[trigger] after.sent.accepted[i]
            == before.sent.accepted[i]) {
        assert(after.sent.accepted =~= before.sent.accepted);
    }
}

} // verus!
