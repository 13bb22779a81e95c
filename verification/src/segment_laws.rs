//! What each behaviour does in one segment, told by what it holds and by what goes through its
//! handles.

use crate::behaviour::{BehaviourFunction, Chain, Ledger, Pause};
use crate::channel::{ErrorType, InMessage, Observed, Seen, Sent};
use crate::ledger_laws;
use crate::outcome::{Failure, Outcome};
use crate::steps::{self, Custom, ExpectDisconnect, Receiving, Sending, SleepInPause};
use vstd::prelude::*;

verus! {

/// What data is sent as: the bytes that it converts to, or, where it does not convert, the error
/// that is made of the reason; and nothing else.
pub proof fn data_is_sent_as_it_converts<T: TryInto<Vec<u8>>, E: ErrorType + From<T::Error>>(
    data: T,
    message: InMessage<E>,
)
    ensures
        steps::converts_to(data, message) <==> exists|converted: Result<Vec<u8>, T::Error>|
            #[trigger] call_ensures(T::try_into, (data,), converted) && match converted {
                Ok(bytes) => message is Ok && message->Ok_0 == bytes,
                Err(error) => message is Err && call_ensures(E::from, (error,), message->Err_0),
            },
{
}

/// A send that the channel takes adds one message, which is what the data converts to; and a send
/// fails only where the channel has turned that message away, and then adds nothing.
pub proof fn send_fails_only_where_refused<T: TryInto<Vec<u8>>, E: ErrorType + From<T::Error>>(
    data: T,
    before: Sent<InMessage<E>>,
    taken: bool,
    after: Sent<InMessage<E>>,
)
    requires
        steps::offers(data, before, taken, after),
    ensures
        taken <==> !after.refused,
        taken ==> {
            &&& !before.refused
            &&& after.accepted.len() == before.accepted.len() + 1
            &&& after.accepted.drop_last() == before.accepted
            &&& steps::converts_to(data, after.accepted.last())
        },
        !taken ==> after.accepted == before.accepted,
{
    if taken {
        assert(after.accepted.drop_last() =~= before.accepted);
    }
}

/// A receive looks exactly once, and judges what that look found: it passes only a message that
/// the predicate can accept, calls a message unexpected only where the predicate can reject it,
/// and reports that there is none only where the look found none.
pub proof fn receive_judges_its_one_look<P: FnOnce(Vec<u8>) -> bool>(
    before: Seen<Vec<u8>>,
    predicate: P,
    after: Seen<Vec<u8>>,
    outcome: Outcome,
)
    ensures
        steps::finds(before, predicate, after, outcome) <==> {
            &&& after.closed == before.closed
            &&& after.observed.len() == before.observed.len() + 1
            &&& after.observed.drop_last() == before.observed
            &&& after.observed.last() is Message ==> forall|i: int|
                0 <= i < before.observed.len() ==> !((#[trigger] before.observed[i]) is Closed)
            &&& match after.observed.last() {
                Observed::Nothing => outcome is Err && outcome->Err_0 is NoMessage,
                Observed::Closed => outcome is Err && outcome->Err_0 is SessionClosed,
                Observed::Message(message) => {
                    ||| outcome is Ok && call_ensures(predicate, (message,), true)
                    ||| outcome is Err && outcome->Err_0 is UnexpectedMessage && call_ensures(
                        predicate,
                        (message,),
                        false,
                    )
                },
            }
        },
{
    let found = after.observed.last();
    if after.observed.len() > 0 {
        lemma_one_look(before, found, after);
    }
    if steps::finds(before, predicate, after, outcome) {
        let seen = choose|seen: Observed<Vec<u8>>| #[trigger]
            before.looked(seen, after) && steps::checks_to(seen, predicate, outcome);
        lemma_one_look(before, seen, after);
        assert(seen == found);
    }
    if after.observed.len() > 0 && before.looked(found, after) && match found {
        Observed::Nothing => outcome is Err && outcome->Err_0 is NoMessage,
        Observed::Closed => outcome is Err && outcome->Err_0 is SessionClosed,
        Observed::Message(message) => {
            ||| outcome is Ok && call_ensures(predicate, (message,), true)
            ||| outcome is Err && outcome->Err_0 is UnexpectedMessage && call_ensures(
                predicate,
                (message,),
                false,
            )
        },
    } {
        assert(steps::checks_to(found, predicate, outcome));
    }
}

/// A check for a disconnected session looks exactly once, and passes only where that look found
/// the end of the messages: a message, or nothing, makes it fail.
pub proof fn disconnect_is_the_end_of_the_messages(
    before: Seen<Vec<u8>>,
    after: Seen<Vec<u8>>,
    outcome: Outcome,
)
    ensures
        steps::finds_end(before, after, outcome) <==> {
            &&& after.closed == before.closed
            &&& after.observed.len() == before.observed.len() + 1
            &&& after.observed.drop_last() == before.observed
            &&& after.observed.last() is Message ==> forall|i: int|
                0 <= i < before.observed.len() ==> !((#[trigger] before.observed[i]) is Closed)
            &&& outcome is Ok <==> after.observed.last() is Closed
            &&& outcome is Err ==> outcome->Err_0 is StillConnected
        },
{
    let found = after.observed.last();
    if after.observed.len() > 0 {
        lemma_one_look(before, found, after);
    }
    if steps::finds_end(before, after, outcome) {
        let seen = choose|seen: Observed<Vec<u8>>| #[trigger]
            before.looked(seen, after) && outcome == steps::disconnected(seen);
        lemma_one_look(before, seen, after);
        assert(seen == found);
    }
    if outcome is Ok {
        assert(outcome->Ok_0 == ());
    }
    if after.observed.len() > 0 && before.looked(found, after) && (outcome is Ok
        <==> found is Closed) && (outcome is Err ==> outcome->Err_0 is StillConnected) {
        assert(outcome == steps::disconnected(found));
    }
}

/// One look, told by its ledger.
proof fn lemma_one_look(before: Seen<Vec<u8>>, found: Observed<Vec<u8>>, after: Seen<Vec<u8>>)
    ensures
        before.looked(found, after) <==> {
            &&& after.closed == before.closed
            &&& after.observed.len() == before.observed.len() + 1
            &&& after.observed.drop_last() == before.observed
            &&& after.observed.last() == found
            &&& found is Message ==> forall|i: int|
                0 <= i < before.observed.len() ==> !((#[trigger] before.observed[i]) is Closed)
        },
{
    ledger_laws::look_adds_what_it_found(before, found, after);
    assert(before.observed.push(found).drop_last() =~= before.observed);
    if after.observed.len() > 0 {
        assert(after.observed.drop_last().push(after.observed.last()) =~= after.observed);
    }
}

/// Sending offers what it holds once, and yields where the channel takes it; it fails only where
/// the channel has turned it away. Then it holds nothing more, and ends without sending.
pub proof fn sending_offers_what_it_holds<T: TryInto<Vec<u8>>, E: ErrorType + From<T::Error>, C>(
    pre: Sending<T, E, C>,
    before: Ledger<E>,
    post: Sending<T, E, C>,
    after: Ledger<E>,
    pause: Pause<C>,
)
    ensures
        pre.ready(),
        pre.bound() == if pre.data is Some {
            1nat
        } else {
            0nat
        },
        Sending::<T, E, C>::segment(pre, before, post, after, pause) ==> {
            &&& post.data is None
            &&& after.seen == before.seen
            &&& pre.data is None ==> after == before && pause is Finish && pause->Finish_0 is Ok
            &&& pre.data is Some ==> if after.sent.refused {
                &&& pause is Finish && pause->Finish_0 == Outcome::Err(Failure::SendFailed)
                &&& after.sent.accepted == before.sent.accepted
            } else {
                &&& pause is Yield
                &&& after.sent.accepted.len() == before.sent.accepted.len() + 1
                &&& after.sent.accepted.drop_last() == before.sent.accepted
                &&& steps::converts_to(pre.data->0, after.sent.accepted.last())
            }
        },
{
    if Sending::<T, E, C>::segment(pre, before, post, after, pause) && pre.data is Some {
        send_fails_only_where_refused(pre.data->0, before.sent, pause is Yield, after.sent);
    }
}

/// Receiving first yields, and then looks exactly once and judges what it found. Then it holds
/// nothing more, and ends without a look.
pub proof fn receiving_yields_and_looks<P: FnOnce(Vec<u8>) -> bool, E: ErrorType, C>(
    pre: Receiving<P, E, C>,
    before: Ledger<E>,
    post: Receiving<P, E, C>,
    after: Ledger<E>,
    pause: Pause<C>,
)
    ensures
        pre.ready() <==> (pre.predicate is Some ==> forall|message: Vec<u8>|
            call_requires(pre.predicate->0, (message,))),
        pre.bound() == if pre.yielded {
            0nat
        } else {
            1nat
        },
        Receiving::<P, E, C>::segment(pre, before, post, after, pause) <==> Receiving::receives(
            pre,
            before,
            post,
            after,
            pause,
        ),
        Receiving::receives(pre, before, post, after, pause) ==> {
            &&& post.yielded
            &&& after.sent == before.sent
            &&& !pre.yielded ==> {
                &&& pause is Yield
                &&& post.predicate == pre.predicate
                &&& after.seen == before.seen
            }
            &&& pre.yielded ==> pause is Finish && post.predicate is None
            &&& pre.yielded && pre.predicate is None ==> {
                &&& pause->Finish_0 is Ok
                &&& after.seen == before.seen
            }
            &&& pre.yielded && pre.predicate is Some ==> {
                &&& after.seen.closed == before.seen.closed
                &&& after.seen.observed.len() == before.seen.observed.len() + 1
                &&& after.seen.observed.drop_last() == before.seen.observed
                &&& match after.seen.observed.last() {
                    Observed::Nothing => pause->Finish_0 == Outcome::Err(Failure::NoMessage),
                    Observed::Closed => pause->Finish_0 == Outcome::Err(Failure::SessionClosed),
                    Observed::Message(message) => {
                        ||| pause->Finish_0 is Ok && call_ensures(
                            pre.predicate->0,
                            (message,),
                            true,
                        )
                        ||| pause->Finish_0 == Outcome::Err(Failure::UnexpectedMessage)
                            && call_ensures(pre.predicate->0, (message,), false)
                    },
                }
            }
        },
{
    if Receiving::receives(pre, before, post, after, pause) && pre.yielded
        && pre.predicate is Some {
        receive_judges_its_one_look(
            before.seen,
            pre.predicate->0,
            after.seen,
            pause->Finish_0,
        );
    }
}

/// Sleeping stops the clock, sleeps for the time that it holds, lets the clock run, and ends, one
/// after the other; it touches neither handle.
pub proof fn sleeping_goes_by_its_stage<E: ErrorType, C>(
    pre: SleepInPause<E, C>,
    before: Ledger<E>,
    post: SleepInPause<E, C>,
    after: Ledger<E>,
    pause: Pause<C>,
)
    ensures
        pre.ready(),
        pre.bound() <= 3,
        SleepInPause::<E, C>::segment(pre, before, post, after, pause) <==> {
            &&& after == before
            &&& post.millis == pre.millis
            &&& pre.stage is Awake ==> pause is FreezeClock && post.stage is Frozen
            &&& pre.stage is Frozen ==> {
                &&& pause is Sleep && pause->Sleep_0 == pre.millis
                &&& post.stage is Rested
            }
            &&& pre.stage is Rested ==> pause is ThawClock && post.stage is Thawed
            &&& pre.stage is Thawed ==> {
                &&& pause is Finish && pause->Finish_0 is Ok
                &&& post.stage is Thawed
            }
        },
{
    if pause is Finish && pause->Finish_0 is Ok {
        assert(pause->Finish_0->Ok_0 == ());
    }
}

/// The check for a disconnected session never pauses and sends nothing, looks exactly once, and
/// passes only where that look found the end of the messages.
pub proof fn expecting_a_disconnect_looks_once<E: ErrorType, C>(
    pre: ExpectDisconnect<E, C>,
    before: Ledger<E>,
    post: ExpectDisconnect<E, C>,
    after: Ledger<E>,
    pause: Pause<C>,
)
    ensures
        pre.ready(),
        pre.bound() == 0,
        ExpectDisconnect::<E, C>::segment(pre, before, post, after, pause) ==> {
            &&& pause is Finish
            &&& after.sent == before.sent
            &&& after.seen.closed == before.seen.closed
            &&& after.seen.observed.len() == before.seen.observed.len() + 1
            &&& after.seen.observed.drop_last() == before.seen.observed
            &&& pause->Finish_0 is Ok <==> after.seen.observed.last() is Closed
            &&& pause->Finish_0 is Err ==> pause->Finish_0->Err_0 is StillConnected
        },
{
    if ExpectDisconnect::<E, C>::segment(pre, before, post, after, pause) {
        disconnect_is_the_end_of_the_messages(before.seen, after.seen, pause->Finish_0);
    }
}

/// A behaviour made of a step has just that step carried out, and then ends; it touches neither
/// handle itself.
pub proof fn custom_hands_its_step_over<E: ErrorType, C>(
    pre: Custom<E, C>,
    before: Ledger<E>,
    post: Custom<E, C>,
    after: Ledger<E>,
    pause: Pause<C>,
)
    ensures
        pre.ready(),
        pre.bound() == if pre.step is Some {
            1nat
        } else {
            0nat
        },
        Custom::<E, C>::segment(pre, before, post, after, pause) <==> {
            &&& after == before
            &&& post.step is None
            &&& pre.step is Some ==> pause is Call && pause->Call_0 == pre.step->0
            &&& pre.step is None ==> pause is Finish && pause->Finish_0 is Ok
        },
{
    if pause is Finish && pause->Finish_0 is Ok {
        assert(pause->Finish_0->Ok_0 == ());
    }
}

/// A chain does in a segment what its first behaviour does, until that ends well; then at once, in
/// the same segment, what its second begins with; and from there on what its second does. It ends
/// well only with its second, and is ready where what it still has to do is.
pub proof fn chain_passes_on_at_once<
    E: ErrorType,
    C,
    A: BehaviourFunction<E, C>,
    B: BehaviourFunction<E, C>,
>(
    pre: Chain<A, B>,
    before: Ledger<E>,
    post: Chain<A, B>,
    after: Ledger<E>,
    pause: Pause<C>,
)
    ensures
        <Chain<A, B> as BehaviourFunction<E, C>>::ready(&pre) <==> pre.second.ready() && (
        pre.passed_on || pre.first.ready()),
        pre.passed_on ==> <Chain<A, B> as BehaviourFunction<E, C>>::bound(&pre)
            == pre.second.bound(),
        !pre.passed_on ==> <Chain<A, B> as BehaviourFunction<E, C>>::bound(&pre)
            == pre.first.bound() + pre.second.bound(),
        <Chain<A, B> as BehaviourFunction<E, C>>::segment(pre, before, post, after, pause) <==> {
            ||| pre.passed_on && post.passed_on && B::segment(
                pre.second,
                before,
                post.second,
                after,
                pause,
            )
            ||| !pre.passed_on && !post.passed_on && post.second == pre.second && !(
            pause is Finish && pause->Finish_0 is Ok) && A::segment(
                pre.first,
                before,
                post.first,
                after,
                pause,
            )
            ||| !pre.passed_on && post.passed_on && exists|middle: Ledger<E>|
                {
                    &&& A::segment(pre.first, before, post.first, middle, Pause::Finish(Ok(())))
                    &&& #[trigger] B::segment(pre.second, middle, post.second, after, pause)
                }
        },
{
    if pause is Finish && pause->Finish_0 is Ok {
        assert(pause->Finish_0->Ok_0 == ());
    }
}

} // verus!
