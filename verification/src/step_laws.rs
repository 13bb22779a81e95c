//! What a whole run of each of the library's behaviours does.

use crate::behaviour::{self, BehaviourFunction, Chain, Effects, Ledger, Pause};
use crate::channel::{ErrorType, InMessage, Observed};
use crate::laws;
use crate::outcome::{Failure, Outcome};
use crate::reading::Stream;
use crate::segment_laws;
use crate::steps::{self, Custom, ExpectDisconnect, Receiving, Sending, SleepInPause, SleepStage};
use crate::stream_laws;
use vstd::prelude::*;

verus! {

/// What a whole run of a sending behaviour does.
pub open spec fn sends<T: TryInto<Vec<u8>>, E: ErrorType + From<T::Error>, C>(
    data: T,
    before: Ledger<E>,
    pauses: Seq<Pause<C>>,
    after: Ledger<E>,
    outcome: Outcome,
) -> bool {
    &&& after.seen == before.seen
    &&& match outcome {
        Ok(()) => pauses == seq![Pause::<C>::Yield],
        Err(failure) => pauses.len() == 0 && failure is SendFailed,
    }
    &&& steps::offers(data, before.sent, outcome is Ok, after.sent)
}

/// Sending offers exactly one message, what the data converts to, and then yields exactly once.
/// Where the session does not take the message, it fails at once.
pub proof fn send_offers_once<T: TryInto<Vec<u8>>, E: ErrorType + From<T::Error>, C>(
    effects: Effects<E, C>,
    behaviour: Sending<T, E, C>,
    data: T,
    before: Ledger<E>,
    pauses: Seq<Pause<C>>,
    after: Ledger<E>,
    outcome: Outcome,
)
    requires
        behaviour.data == Some(data),
    ensures
        behaviour::runs(effects, behaviour, before, pauses, after, outcome) <==> sends(
            data,
            before,
            pauses,
            after,
            outcome,
        ),
{
    let spent = Sending::<T, E, C> { data: None, kind: behaviour.kind };
    if behaviour::runs(effects, behaviour, before, pauses, after, outcome) {
        if pauses.len() > 0 {
            let begun = laws::lemma_run_begins(effects, behaviour, before, pauses, after, outcome);
            assert(pauses =~= seq![Pause::<C>::Yield]);
        }
    }
    if sends(data, before, pauses, after, outcome) {
        let last = Pause::<C>::Finish(outcome);
        if outcome is Ok {
            assert(outcome->Ok_0 == ());
            assert(Sending::<T, E, C>::segment(spent, after, spent, after, last));
            laws::lemma_run_extends(
                effects,
                behaviour,
                before,
                spent,
                after,
                after,
                pauses,
                after,
                outcome,
            );
        } else {
            assert(Sending::<T, E, C>::segment(behaviour, before, spent, after, last));
        }
    }
}

/// Receiving yields exactly once, then looks exactly once, and passes where a message is there
/// that passes the predicate, and nowhere else. It sends nothing.
pub proof fn receive_looks_once<P: FnOnce(Vec<u8>) -> bool, E: ErrorType, C>(
    effects: Effects<E, C>,
    behaviour: Receiving<P, E, C>,
    predicate: P,
    before: Ledger<E>,
    pauses: Seq<Pause<C>>,
    after: Ledger<E>,
    outcome: Outcome,
)
    requires
        behaviour.predicate == Some(predicate),
        !behaviour.yielded,
    ensures
        behaviour::runs(effects, behaviour, before, pauses, after, outcome) <==> {
            &&& pauses == seq![Pause::<C>::Yield]
            &&& after.sent == before.sent
            &&& steps::finds(before.seen, predicate, after.seen, outcome)
        },
{
    let last = Pause::<C>::Finish(outcome);
    let waiting = Receiving::<P, E, C> {
        predicate: behaviour.predicate,
        yielded: true,
        kind: behaviour.kind,
    };
    let spent = Receiving::<P, E, C> { predicate: None, yielded: true, kind: behaviour.kind };
    if behaviour::runs(effects, behaviour, before, pauses, after, outcome) {
        let begun = laws::lemma_run_begins(effects, behaviour, before, pauses, after, outcome);
        assert(pauses =~= seq![Pause::<C>::Yield]);
    }
    if pauses == seq![Pause::<C>::Yield] && after.sent == before.sent && steps::finds(
        before.seen,
        predicate,
        after.seen,
        outcome,
    ) {
        assert(Receiving::<P, E, C>::segment(waiting, before, spent, after, last));
        laws::lemma_run_extends(
            effects,
            behaviour,
            before,
            waiting,
            before,
            before,
            pauses,
            after,
            outcome,
        );
    }
}

/// The pauses of a sleep with a stopped clock.
pub open spec fn sleep_pauses<C>(millis: u64) -> Seq<Pause<C>> {
    seq![Pause::FreezeClock, Pause::Sleep(millis), Pause::ThawClock]
}

/// Sleeping stops the clock, sleeps for the given time, and lets the clock run again, in this
/// order; it touches neither handle, and never fails.
pub proof fn sleep_thaws_the_clock<E: ErrorType, C>(
    effects: Effects<E, C>,
    behaviour: SleepInPause<E, C>,
    before: Ledger<E>,
    pauses: Seq<Pause<C>>,
    after: Ledger<E>,
    outcome: Outcome,
)
    requires
        behaviour.stage is Awake,
    ensures
        behaviour::runs(effects, behaviour, before, pauses, after, outcome) <==> {
            &&& pauses == sleep_pauses::<C>(behaviour.millis)
            &&& after == before
            &&& outcome is Ok
        },
{
    let last = Pause::<C>::Finish(outcome);
    let frozen = SleepInPause::<E, C> { stage: SleepStage::Frozen, ..behaviour };
    let rested = SleepInPause::<E, C> { stage: SleepStage::Rested, ..behaviour };
    let thawed = SleepInPause::<E, C> { stage: SleepStage::Thawed, ..behaviour };
    let second = pauses.drop_first();
    let third = second.drop_first();
    if behaviour::runs(effects, behaviour, before, pauses, after, outcome) {
        let (post, stopped, resumed) = laws::lemma_run_begins(
            effects,
            behaviour,
            before,
            pauses,
            after,
            outcome,
        );
        let (post, stopped, resumed) = laws::lemma_run_begins(
            effects,
            post,
            resumed,
            second,
            after,
            outcome,
        );
        let (post, stopped, resumed) = laws::lemma_run_begins(
            effects,
            post,
            resumed,
            third,
            after,
            outcome,
        );
        assert(pauses =~= sleep_pauses::<C>(behaviour.millis));
    }
    if pauses == sleep_pauses::<C>(behaviour.millis) && after == before && outcome is Ok {
        assert(outcome->Ok_0 == ());
        assert(SleepInPause::<E, C>::segment(thawed, before, thawed, before, last));
        laws::lemma_run_extends(
            effects,
            rested,
            before,
            thawed,
            before,
            before,
            third,
            after,
            outcome,
        );
        laws::lemma_run_extends(
            effects,
            frozen,
            before,
            rested,
            before,
            before,
            second,
            after,
            outcome,
        );
        laws::lemma_run_extends(
            effects,
            behaviour,
            before,
            frozen,
            before,
            before,
            pauses,
            after,
            outcome,
        );
    }
}

/// The check for a disconnected session looks exactly once, and never pauses.
proof fn lemma_expect_disconnect_runs<E: ErrorType, C>(
    effects: Effects<E, C>,
    behaviour: ExpectDisconnect<E, C>,
    before: Ledger<E>,
    pauses: Seq<Pause<C>>,
    after: Ledger<E>,
    outcome: Outcome,
)
    ensures
        behaviour::runs(effects, behaviour, before, pauses, after, outcome) <==> {
            &&& pauses.len() == 0
            &&& after.sent == before.sent
            &&& steps::finds_end(before.seen, after.seen, outcome)
        },
{
    let last = Pause::<C>::Finish(outcome);
    if pauses.len() == 0 && after.sent == before.sent && steps::finds_end(
        before.seen,
        after.seen,
        outcome,
    ) {
        assert(ExpectDisconnect::<E, C>::segment(behaviour, before, behaviour, after, last));
    }
}

/// Waiting for the session to disconnect sleeps with a stopped clock for the time that a session
/// has, looks exactly once, and passes where the end of the messages is there, and nowhere else.
/// It sends nothing.
pub proof fn wait_for_disconnect_looks_once<E: ErrorType, C>(
    effects: Effects<E, C>,
    behaviour: Chain<SleepInPause<E, C>, ExpectDisconnect<E, C>>,
    before: Ledger<E>,
    pauses: Seq<Pause<C>>,
    after: Ledger<E>,
    outcome: Outcome,
)
    requires
        behaviour.first.millis == steps::DISCONNECT_MILLIS,
        behaviour.first.stage is Awake,
        !behaviour.passed_on,
    ensures
        behaviour::runs::<E, C, Chain<SleepInPause<E, C>, ExpectDisconnect<E, C>>>(
            effects,
            behaviour,
            before,
            pauses,
            after,
            outcome,
        ) <==> {
            &&& pauses == sleep_pauses::<C>(steps::DISCONNECT_MILLIS)
            &&& after.sent == before.sent
            &&& steps::finds_end(before.seen, after.seen, outcome)
        },
{
    let sleep = behaviour.first;
    let check = behaviour.second;
    let slept = sleep_pauses::<C>(steps::DISCONNECT_MILLIS);
    laws::chain_runs_in_turn(effects, sleep, check, before, pauses, after, outcome);
    if behaviour::runs_in_turn(effects, sleep, check, before, pauses, after, outcome) {
        if behaviour::runs(effects, sleep, before, pauses, after, outcome) && outcome is Err {
            sleep_thaws_the_clock(effects, sleep, before, pauses, after, outcome);
        }
        let (taken, middle) = laws::lemma_second_begins(
            effects,
            sleep,
            check,
            before,
            pauses,
            after,
            outcome,
        );
        sleep_thaws_the_clock(effects, sleep, before, pauses.take(taken), middle, Ok(()));
        assert(pauses =~= pauses.take(taken));
    }
    if pauses == slept && after.sent == before.sent && steps::finds_end(
        before.seen,
        after.seen,
        outcome,
    ) {
        let all = pauses.len() as int;
        assert(pauses.take(all) =~= slept);
        sleep_thaws_the_clock(effects, sleep, before, pauses.take(all), before, Ok(()));
        lemma_expect_disconnect_runs(effects, check, before, pauses.skip(all), after, outcome);
    }
}

/// A behaviour made of a step has exactly that step carried out, once, and then ends well. What
/// goes through the handles is the step's own effect.
pub proof fn custom_calls_once<E: ErrorType, C>(
    effects: Effects<E, C>,
    behaviour: Custom<E, C>,
    step: C,
    before: Ledger<E>,
    pauses: Seq<Pause<C>>,
    after: Ledger<E>,
    outcome: Outcome,
)
    requires
        behaviour.step == Some(step),
    ensures
        behaviour::runs(effects, behaviour, before, pauses, after, outcome) <==> {
            &&& pauses == seq![Pause::Call(step)]
            &&& effects(step, before, after)
            &&& before.grows_to(after)
            &&& outcome is Ok
        },
{
    let last = Pause::<C>::Finish(outcome);
    let spent = Custom::<E, C> { step: None, kind: behaviour.kind };
    if behaviour::runs(effects, behaviour, before, pauses, after, outcome) {
        let begun = laws::lemma_run_begins(effects, behaviour, before, pauses, after, outcome);
        assert(pauses =~= seq![Pause::Call(step)]);
    }
    if pauses == seq![Pause::Call(step)] && effects(step, before, after) && before.grows_to(after)
        && outcome is Ok {
        assert(outcome->Ok_0 == ());
        assert(Custom::<E, C>::segment(spent, after, spent, after, last));
        laws::lemma_run_extends(
            effects,
            behaviour,
            before,
            spent,
            before,
            after,
            pauses,
            after,
            outcome,
        );
    }
}

/// A step that leaves the ledger as it found it adds nothing to the behaviour behind it: the
/// chain sends, receives, pauses and ends as that behaviour does, once the step is done.
pub proof fn idle_step_is_neutral_in_front<E: ErrorType, C, B: BehaviourFunction<E, C>>(
    effects: Effects<E, C>,
    idle: Custom<E, C>,
    step: C,
    behaviour: B,
    before: Ledger<E>,
    pauses: Seq<Pause<C>>,
    after: Ledger<E>,
    outcome: Outcome,
)
    requires
        idle.step == Some(step),
        forall|found: Ledger<E>, left: Ledger<E>| #[trigger]
            effects(step, found, left) <==> left == found,
    ensures
        behaviour::runs::<E, C, Chain<Custom<E, C>, B>>(
            effects,
            Chain { first: idle, second: behaviour, passed_on: false },
            before,
            pauses,
            after,
            outcome,
        ) <==> {
            &&& pauses.len() > 0
            &&& pauses[0] == Pause::Call(step)
            &&& behaviour::runs(effects, behaviour, before, pauses.drop_first(), after, outcome)
        },
{
    laws::chain_runs_in_turn(effects, idle, behaviour, before, pauses, after, outcome);
    custom_calls_once(effects, idle, step, before, pauses, after, outcome);
    if behaviour::runs_in_turn(effects, idle, behaviour, before, pauses, after, outcome) {
        let (taken, middle) = laws::lemma_second_begins(
            effects,
            idle,
            behaviour,
            before,
            pauses,
            after,
            outcome,
        );
        custom_calls_once(effects, idle, step, before, pauses.take(taken), middle, Ok(()));
        assert(pauses.take(taken)[0] == pauses[0]);
        assert(pauses.skip(taken) =~= pauses.drop_first());
    }
    if pauses.len() > 0 && pauses[0] == Pause::Call(step) && behaviour::runs(
        effects,
        behaviour,
        before,
        pauses.drop_first(),
        after,
        outcome,
    ) {
        custom_calls_once(effects, idle, step, before, pauses.take(1), before, Ok(()));
        assert(effects(step, before, before));
        assert(pauses.take(1) =~= seq![Pause::Call(step)]);
        assert(pauses.skip(1) =~= pauses.drop_first());
        assert(behaviour::runs(effects, idle, before, pauses.take(1), before, Ok(())));
    }
}

/// A step that leaves the ledger as it found it adds nothing to the behaviour in front of it: the
/// chain sends, receives, pauses and ends as that behaviour does, and then has the step done,
/// unless the behaviour fails.
pub proof fn idle_step_is_neutral_behind<E: ErrorType, C, B: BehaviourFunction<E, C>>(
    effects: Effects<E, C>,
    behaviour: B,
    idle: Custom<E, C>,
    step: C,
    before: Ledger<E>,
    pauses: Seq<Pause<C>>,
    after: Ledger<E>,
    outcome: Outcome,
)
    requires
        idle.step == Some(step),
        forall|found: Ledger<E>, left: Ledger<E>| #[trigger]
            effects(step, found, left) <==> left == found,
    ensures
        behaviour::runs::<E, C, Chain<B, Custom<E, C>>>(
            effects,
            Chain { first: behaviour, second: idle, passed_on: false },
            before,
            pauses,
            after,
            outcome,
        ) <==> match outcome {
            Ok(()) => {
                &&& pauses.len() > 0
                &&& pauses.last() == Pause::Call(step)
                &&& behaviour::runs(effects, behaviour, before, pauses.drop_last(), after, outcome)
            },
            Err(_) => behaviour::runs(effects, behaviour, before, pauses, after, outcome),
        },
{
    laws::chain_runs_in_turn(effects, behaviour, idle, before, pauses, after, outcome);
    if outcome is Ok {
        assert(outcome->Ok_0 == ());
    }
    if behaviour::runs_in_turn(effects, behaviour, idle, before, pauses, after, outcome) && !(
    outcome is Err && behaviour::runs(effects, behaviour, before, pauses, after, outcome)) {
        let (taken, middle) = laws::lemma_second_begins(
            effects,
            behaviour,
            idle,
            before,
            pauses,
            after,
            outcome,
        );
        custom_calls_once(effects, idle, step, middle, pauses.skip(taken), after, outcome);
        assert(pauses.skip(taken)[0] == pauses[taken]);
        assert(pauses.take(taken) =~= pauses.drop_last());
        assert(effects(step, middle, after));
    }
    if outcome is Ok && pauses.len() > 0 && pauses.last() == Pause::Call(step) && behaviour::runs(
        effects,
        behaviour,
        before,
        pauses.drop_last(),
        after,
        outcome,
    ) {
        let taken = pauses.len() - 1;
        custom_calls_once(effects, idle, step, after, pauses.skip(taken), after, outcome);
        assert(effects(step, after, after));
        assert(pauses.skip(taken) =~= seq![Pause::Call(step)]);
        assert(pauses.take(taken) =~= pauses.drop_last());
        assert(behaviour::runs(effects, behaviour, before, pauses.take(taken), after, Ok(())));
        assert(behaviour::runs(effects, idle, after, pauses.skip(taken), after, outcome));
    }
}

/// Two sends in a chain: where the chain ends well, the session has been sent the first message
/// and then the second, and nothing else; and the other tasks could run after the first, before
/// the second was sent, and again after the second.
pub proof fn sends_keep_their_order<
    T: TryInto<Vec<u8>>,
    U: TryInto<Vec<u8>>,
    E: ErrorType + From<T::Error> + From<U::Error>,
    C,
>(
    effects: Effects<E, C>,
    first: Sending<T, E, C>,
    second: Sending<U, E, C>,
    early: T,
    late: U,
    before: Ledger<E>,
    pauses: Seq<Pause<C>>,
    after: Ledger<E>,
)
    requires
        first.data == Some(early),
        second.data == Some(late),
        behaviour::runs::<E, C, Chain<Sending<T, E, C>, Sending<U, E, C>>>(
            effects,
            Chain { first, second, passed_on: false },
            before,
            pauses,
            after,
            Ok(()),
        ),
    ensures
        pauses == seq![Pause::<C>::Yield, Pause::<C>::Yield],
        after.seen == before.seen,
        exists|one: InMessage<E>, two: InMessage<E>|
            {
                &&& #[trigger] steps::converts_to(early, one)
                &&& #[trigger] steps::converts_to(late, two)
                &&& after.sent.accepted == before.sent.accepted + seq![one, two]
            },
{
    laws::chain_runs_in_turn(effects, first, second, before, pauses, after, Ok(()));
    let (taken, middle) = laws::lemma_second_begins(
        effects,
        first,
        second,
        before,
        pauses,
        after,
        Ok(()),
    );
    send_offers_once(effects, first, early, before, pauses.take(taken), middle, Ok(()));
    send_offers_once(effects, second, late, middle, pauses.skip(taken), after, Ok(()));
}

/// Once the session has turned a message away, every further send fails, and sends nothing.
pub proof fn refusal_is_final<T: TryInto<Vec<u8>>, E: ErrorType + From<T::Error>, C>(
    effects: Effects<E, C>,
    behaviour: Sending<T, E, C>,
    data: T,
    before: Ledger<E>,
    pauses: Seq<Pause<C>>,
    after: Ledger<E>,
    outcome: Outcome,
)
    requires
        behaviour.data == Some(data),
        before.sent.refused,
        behaviour::runs(effects, behaviour, before, pauses, after, outcome),
    ensures
        outcome == Outcome::Err(Failure::SendFailed),
        after == before,
{
    send_offers_once(effects, behaviour, data, before, pauses, after, outcome);
}

/// Once the end of the session's messages has been seen, nothing can be received any more.
pub proof fn end_of_messages_is_final<P: FnOnce(Vec<u8>) -> bool, E: ErrorType, C>(
    effects: Effects<E, C>,
    behaviour: Receiving<P, E, C>,
    predicate: P,
    before: Ledger<E>,
    pauses: Seq<Pause<C>>,
    after: Ledger<E>,
    outcome: Outcome,
)
    requires
        behaviour.predicate == Some(predicate),
        !behaviour.yielded,
        before.seen.ended(),
        behaviour::runs(effects, behaviour, before, pauses, after, outcome),
    ensures
        outcome == Outcome::Err(Failure::NoMessage) || outcome == Outcome::Err(
            Failure::SessionClosed,
        ),
        after.seen.ended(),
{
    receive_looks_once(effects, behaviour, predicate, before, pauses, after, outcome);
    stream_laws::lemma_ended_stays(before.seen, after.seen);
}

/// A run of a send yields exactly once where its message was taken, and then one message has been
/// added, which is what the data converts to. It fails only where the session has turned the
/// message away, and then at once, with nothing added. It receives nothing.
pub proof fn send_adds_one_message_or_is_refused<
    T: TryInto<Vec<u8>>,
    E: ErrorType + From<T::Error>,
    C,
>(
    effects: Effects<E, C>,
    behaviour: Sending<T, E, C>,
    data: T,
    before: Ledger<E>,
    pauses: Seq<Pause<C>>,
    after: Ledger<E>,
    outcome: Outcome,
)
    requires
        behaviour.data == Some(data),
        behaviour::runs(effects, behaviour, before, pauses, after, outcome),
    ensures
        after.seen == before.seen,
        outcome is Err <==> after.sent.refused,
        outcome is Err ==> {
            &&& outcome->Err_0 is SendFailed
            &&& pauses.len() == 0
            &&& after.sent.accepted == before.sent.accepted
        },
        outcome is Ok ==> {
            &&& pauses.len() == 1 && pauses[0] is Yield
            &&& !before.sent.refused
            &&& after.sent.accepted.len() == before.sent.accepted.len() + 1
            &&& after.sent.accepted.drop_last() == before.sent.accepted
            &&& steps::converts_to(data, after.sent.accepted.last())
        },
{
    send_offers_once(effects, behaviour, data, before, pauses, after, outcome);
    segment_laws::send_fails_only_where_refused(data, before.sent, outcome is Ok, after.sent);
}

/// Nothing but a refusal stops a send: where the ledger before it has none, and `message` is what
/// the data converts to, a run that sends `message` is there, and so is one that is refused.
pub proof fn send_can_be_taken_or_refused<
    T: TryInto<Vec<u8>>,
    E: ErrorType + From<T::Error>,
    C,
>(
    effects: Effects<E, C>,
    behaviour: Sending<T, E, C>,
    data: T,
    message: InMessage<E>,
    before: Ledger<E>,
    after: Ledger<E>,
)
    requires
        behaviour.data == Some(data),
        steps::converts_to(data, message),
        !before.sent.refused,
        after.seen == before.seen,
    ensures
        after.sent.accepted == before.sent.accepted.push(message) && !after.sent.refused
            ==> behaviour::runs(
            effects,
            behaviour,
            before,
            seq![Pause::<C>::Yield],
            after,
            Ok(()),
        ),
        after.sent.accepted == before.sent.accepted && after.sent.refused ==> behaviour::runs(
            effects,
            behaviour,
            before,
            Seq::<Pause<C>>::empty(),
            after,
            Err(Failure::SendFailed),
        ),
{
    let yields = seq![Pause::<C>::Yield];
    send_offers_once(effects, behaviour, data, before, yields, after, Ok(()));
    send_offers_once(
        effects,
        behaviour,
        data,
        before,
        Seq::<Pause<C>>::empty(),
        after,
        Err(Failure::SendFailed),
    );
    if after.sent.accepted == before.sent.accepted.push(message) && !after.sent.refused {
        assert(before.sent.offered(message, true, after.sent));
        assert(steps::offers(data, before.sent, true, after.sent));
    }
    if after.sent.accepted == before.sent.accepted && after.sent.refused {
        assert(before.sent.offered(message, false, after.sent));
        assert(steps::offers(data, before.sent, false, after.sent));
    }
}

/// A run of a receive yields exactly once and looks exactly once, whatever its predicate is, and
/// ends as what that look found says: it passes only a message that the predicate can accept, and
/// reports that there is none only where the look found none. It sends nothing.
pub proof fn receive_ends_as_its_look_says<P: FnOnce(Vec<u8>) -> bool, E: ErrorType, C>(
    effects: Effects<E, C>,
    behaviour: Receiving<P, E, C>,
    predicate: P,
    before: Ledger<E>,
    pauses: Seq<Pause<C>>,
    after: Ledger<E>,
    outcome: Outcome,
)
    requires
        behaviour.predicate == Some(predicate),
        !behaviour.yielded,
    ensures
        behaviour::runs(effects, behaviour, before, pauses, after, outcome) <==> {
            &&& pauses.len() == 1 && pauses[0] is Yield
            &&& after.sent == before.sent
            &&& after.seen.closed == before.seen.closed
            &&& after.seen.observed.len() == before.seen.observed.len() + 1
            &&& after.seen.observed.drop_last() == before.seen.observed
            &&& after.seen.observed.last() is Message ==> forall|i: int|
                0 <= i < before.seen.observed.len()
                    ==> !((#[trigger] before.seen.observed[i]) is Closed)
            &&& match after.seen.observed.last() {
                Observed::Nothing => outcome is Err && outcome->Err_0 is NoMessage,
                Observed::Closed => outcome is Err && outcome->Err_0 is SessionClosed,
                Observed::Message(message) => {
                    ||| outcome is Ok && call_ensures(predicate, (message,), true)
                    ||| outcome is Err && outcome->Err_0 is UnexpectedMessage && call_ensures(
                        predicate,
                        (message,),
                        false,
                    )
                },
            }
        },
{
    receive_looks_once(effects, behaviour, predicate, before, pauses, after, outcome);
    segment_laws::receive_judges_its_one_look(before.seen, predicate, after.seen, outcome);
    if pauses.len() == 1 && pauses[0] is Yield {
        assert(pauses =~= seq![Pause::<C>::Yield]);
    }
}

/// A sleep with a stopped clock pauses three times: to stop the clock, to sleep for just the time
/// that it was given, and to let the clock run again. It touches neither handle and never fails.
pub proof fn sleep_takes_its_time<E: ErrorType, C>(
    effects: Effects<E, C>,
    behaviour: SleepInPause<E, C>,
    before: Ledger<E>,
    pauses: Seq<Pause<C>>,
    after: Ledger<E>,
    outcome: Outcome,
)
    requires
        behaviour.stage is Awake,
    ensures
        behaviour::runs(effects, behaviour, before, pauses, after, outcome) <==> {
            &&& pauses.len() == 3
            &&& pauses[0] is FreezeClock
            &&& pauses[1] is Sleep && pauses[1]->Sleep_0 == behaviour.millis
            &&& pauses[2] is ThawClock
            &&& after == before
            &&& outcome is Ok
        },
{
    sleep_thaws_the_clock(effects, behaviour, before, pauses, after, outcome);
    if pauses.len() == 3 && pauses[0] is FreezeClock && pauses[1] is Sleep && pauses[1]->Sleep_0
        == behaviour.millis && pauses[2] is ThawClock {
        assert(pauses =~= sleep_pauses::<C>(behaviour.millis));
    }
}

/// A run of waiting for the session to disconnect gives it 5050 milliseconds with a stopped clock
/// and then looks exactly once. It passes where that look found the end of the messages, so that
/// all that the session sent has been received; where the look found a message, or nothing, it
/// fails. It sends nothing.
pub proof fn wait_passes_only_at_the_end<E: ErrorType, C>(
    effects: Effects<E, C>,
    behaviour: Chain<SleepInPause<E, C>, ExpectDisconnect<E, C>>,
    stream: Stream<Vec<u8>>,
    before: Ledger<E>,
    pauses: Seq<Pause<C>>,
    after: Ledger<E>,
    outcome: Outcome,
)
    requires
        behaviour.first.millis == 5050,
        behaviour.first.stage is Awake,
        !behaviour.passed_on,
        behaviour::runs::<E, C, Chain<SleepInPause<E, C>, ExpectDisconnect<E, C>>>(
            effects,
            behaviour,
            before,
            pauses,
            after,
            outcome,
        ),
    ensures
        pauses.len() == 3,
        pauses[0] is FreezeClock,
        pauses[1] is Sleep && pauses[1]->Sleep_0 == 5050,
        pauses[2] is ThawClock,
        after.sent == before.sent,
        after.seen.closed == before.seen.closed,
        after.seen.observed.len() == before.seen.observed.len() + 1,
        after.seen.observed.drop_last() == before.seen.observed,
        outcome is Ok <==> after.seen.observed.last() is Closed,
        outcome is Err ==> outcome->Err_0 is StillConnected,
        outcome is Ok && after.seen.within(stream) ==> after.seen.messages()
            == before.seen.messages() && after.seen.messages().len() == stream.taken.len(),
{
    wait_for_disconnect_looks_once(effects, behaviour, before, pauses, after, outcome);
    segment_laws::disconnect_is_the_end_of_the_messages(before.seen, after.seen, outcome);
    if outcome is Ok && after.seen.within(stream) {
        let found = choose|found: Observed<Vec<u8>>| #[trigger]
            before.seen.looked(found, after.seen) && outcome == steps::disconnected(found);
        assert(after.seen.observed.last() == found);
        stream_laws::look_finds_the_next_message(stream, before.seen, found, after.seen);
    }
}

/// A behaviour made of a step pauses exactly once, to have just that step carried out, and ends
/// well; what has gone through the handles is what the step did.
pub proof fn custom_has_its_step_done<E: ErrorType, C>(
    effects: Effects<E, C>,
    behaviour: Custom<E, C>,
    step: C,
    before: Ledger<E>,
    pauses: Seq<Pause<C>>,
    after: Ledger<E>,
    outcome: Outcome,
)
    requires
        behaviour.step == Some(step),
    ensures
        behaviour::runs(effects, behaviour, before, pauses, after, outcome) <==> {
            &&& pauses.len() == 1 && pauses[0] is Call && pauses[0]->Call_0 == step
            &&& effects(step, before, after)
            &&& before.grows_to(after)
            &&& outcome is Ok
        },
{
    custom_calls_once(effects, behaviour, step, before, pauses, after, outcome);
    if pauses.len() == 1 && pauses[0] is Call && pauses[0]->Call_0 == step {
        assert(pauses =~= seq![Pause::Call(step)]);
    }
}

} // verus!
