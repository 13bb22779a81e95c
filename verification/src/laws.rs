//! What holds of whole runs.

use crate::behaviour::{self, BehaviourFunction, Chain, Effects, Ledger, Pause};
use crate::channel::{ErrorType, InMessage};
use crate::outcome::{self, Outcome, Rejection};
use vstd::prelude::*;

verus! {

/// The first step of a run.
pub(crate) proof fn lemma_run_begins<E: ErrorType, C, B: BehaviourFunction<E, C>>(
    effects: Effects<E, C>,
    behaviour: B,
    before: Ledger<E>,
    pauses: Seq<Pause<C>>,
    after: Ledger<E>,
    outcome: Outcome,
) -> (begun: (B, Ledger<E>, Ledger<E>))
    requires
        pauses.len() > 0,
        behaviour::runs(effects, behaviour, before, pauses, after, outcome),
    ensures
        !(pauses[0] is Finish),
        B::segment(behaviour, before, begun.0, begun.1, pauses[0]),
        behaviour::while_paused(effects, pauses[0], begun.1, begun.2),
        behaviour::runs(effects, begun.0, begun.2, pauses.drop_first(), after, outcome),
{
    choose|post: B, stopped: Ledger<E>, resumed: Ledger<E>|
        {
            &&& #[trigger] B::segment(behaviour, before, post, stopped, pauses[0])
            &&& #[trigger] behaviour::while_paused(effects, pauses[0], stopped, resumed)
            &&& behaviour::runs(effects, post, resumed, pauses.drop_first(), after, outcome)
        }
}

/// A run from its first step and the rest.
pub(crate) proof fn lemma_run_extends<E: ErrorType, C, B: BehaviourFunction<E, C>>(
    effects: Effects<E, C>,
    behaviour: B,
    before: Ledger<E>,
    post: B,
    stopped: Ledger<E>,
    resumed: Ledger<E>,
    pauses: Seq<Pause<C>>,
    after: Ledger<E>,
    outcome: Outcome,
)
    requires
        pauses.len() > 0,
        !(pauses[0] is Finish),
        B::segment(behaviour, before, post, stopped, pauses[0]),
        behaviour::while_paused(effects, pauses[0], stopped, resumed),
        behaviour::runs(effects, post, resumed, pauses.drop_first(), after, outcome),
    ensures
        behaviour::runs(effects, behaviour, before, pauses, after, outcome),
{
}

/// Where one behaviour takes over from another: after how many pauses, and with which ledger.
pub(crate) proof fn lemma_second_begins<
    E: ErrorType,
    C,
    A: BehaviourFunction<E, C>,
    B: BehaviourFunction<E, C>,
>(
    effects: Effects<E, C>,
    first: A,
    second: B,
    before: Ledger<E>,
    pauses: Seq<Pause<C>>,
    after: Ledger<E>,
    outcome: Outcome,
) -> (turn: (int, Ledger<E>))
    requires
        behaviour::runs_in_turn(effects, first, second, before, pauses, after, outcome),
        !(outcome is Err && behaviour::runs(effects, first, before, pauses, after, outcome)),
    ensures
        0 <= turn.0 <= pauses.len(),
        behaviour::runs(effects, first, before, pauses.take(turn.0), turn.1, Ok(())),
        behaviour::runs(effects, second, turn.1, pauses.skip(turn.0), after, outcome),
{
    choose|taken: int, middle: Ledger<E>|
        {
            &&& 0 <= taken <= pauses.len()
            &&& #[trigger] behaviour::runs(
                effects,
                first,
                before,
                pauses.take(taken),
                middle,
                Ok(()),
            )
            &&& #[trigger] behaviour::runs(
                effects,
                second,
                middle,
                pauses.skip(taken),
                after,
                outcome,
            )
        }
}

/// Behind the first behaviour, a chain is its second.
proof fn lemma_passed_on<
    E: ErrorType,
    C,
    A: BehaviourFunction<E, C>,
    B: BehaviourFunction<E, C>,
>(
    effects: Effects<E, C>,
    chain: Chain<A, B>,
    before: Ledger<E>,
    pauses: Seq<Pause<C>>,
    after: Ledger<E>,
    outcome: Outcome,
)
    requires
        chain.passed_on,
    ensures
        behaviour::runs::<E, C, Chain<A, B>>(effects, chain, before, pauses, after, outcome)
            <==> behaviour::runs(effects, chain.second, before, pauses, after, outcome),
    decreases pauses.len(),
{
    if behaviour::runs::<E, C, Chain<A, B>>(effects, chain, before, pauses, after, outcome) {
        if pauses.len() > 0 {
            let (post, stopped, resumed) = lemma_run_begins(
                effects,
                chain,
                before,
                pauses,
                after,
                outcome,
            );
            lemma_passed_on(effects, post, resumed, pauses.drop_first(), after, outcome);
        }
    }
    if behaviour::runs(effects, chain.second, before, pauses, after, outcome) {
        if pauses.len() == 0 {
            let post = choose|post: B| #[trigger]
                B::segment(chain.second, before, post, after, Pause::<C>::Finish(outcome));
            let whole = Chain { first: chain.first, second: post, passed_on: true };
            assert(Chain::<A, B>::segment(
                chain,
                before,
                whole,
                after,
                Pause::<C>::Finish(outcome),
            ));
        } else {
            let (post, stopped, resumed) = lemma_run_begins(
                effects,
                chain.second,
                before,
                pauses,
                after,
                outcome,
            );
            let whole = Chain { first: chain.first, second: post, passed_on: true };
            lemma_passed_on(effects, whole, resumed, pauses.drop_first(), after, outcome);
            lemma_run_extends(
                effects,
                chain,
                before,
                whole,
                stopped,
                resumed,
                pauses,
                after,
                outcome,
            );
        }
    }
}

/// Every run of a chain is a run of the first behaviour and, where that ends well, at once one of
/// the second.
proof fn lemma_chain_splits<
    E: ErrorType,
    C,
    A: BehaviourFunction<E, C>,
    B: BehaviourFunction<E, C>,
>(
    effects: Effects<E, C>,
    first: A,
    second: B,
    before: Ledger<E>,
    pauses: Seq<Pause<C>>,
    after: Ledger<E>,
    outcome: Outcome,
)
    requires
        behaviour::runs::<E, C, Chain<A, B>>(
            effects,
            Chain { first, second, passed_on: false },
            before,
            pauses,
            after,
            outcome,
        ),
    ensures
        behaviour::runs_in_turn(effects, first, second, before, pauses, after, outcome),
    decreases pauses.len(),
{
    let chain = Chain { first, second, passed_on: false };
    if pauses.len() == 0 {
        let last = Pause::<C>::Finish(outcome);
        let post = choose|post: Chain<A, B>| #[trigger]
            Chain::<A, B>::segment(chain, before, post, after, last);
        if post.passed_on {
            let middle = choose|middle: Ledger<E>|
                #![trigger B::segment(second, middle, post.second, after, last)]
                A::segment(first, before, post.first, middle, Pause::Finish(Ok(())))
                    && B::segment(second, middle, post.second, after, last);
            assert(behaviour::runs(effects, first, before, pauses.take(0), middle, Ok(())));
            assert(behaviour::runs(effects, second, middle, pauses.skip(0), after, outcome));
        } else if outcome is Ok {
            assert(outcome->Ok_0 == ());
        }
    } else {
        let rest = pauses.drop_first();
        let (post, stopped, resumed) = lemma_run_begins(
            effects,
            chain,
            before,
            pauses,
            after,
            outcome,
        );
        if post.passed_on {
            let middle = choose|middle: Ledger<E>|
                #![trigger B::segment(second, middle, post.second, stopped, pauses[0])]
                A::segment(first, before, post.first, middle, Pause::Finish(Ok(())))
                    && B::segment(second, middle, post.second, stopped, pauses[0]);
            lemma_passed_on(effects, post, resumed, rest, after, outcome);
            lemma_run_extends(
                effects,
                second,
                middle,
                post.second,
                stopped,
                resumed,
                pauses,
                after,
                outcome,
            );
            assert(pauses.skip(0) =~= pauses);
            assert(behaviour::runs(effects, first, before, pauses.take(0), middle, Ok(())));
        } else {
            lemma_chain_splits(effects, post.first, second, resumed, rest, after, outcome);
            if !(outcome is Err && behaviour::runs(
                effects,
                post.first,
                resumed,
                rest,
                after,
                outcome,
            )) {
                let (taken, middle) = lemma_second_begins(
                    effects,
                    post.first,
                    second,
                    resumed,
                    rest,
                    after,
                    outcome,
                );
                let more = taken + 1;
                assert(pauses.take(more).drop_first() =~= rest.take(taken));
                assert(pauses.skip(more) =~= rest.skip(taken));
                lemma_run_extends(
                    effects,
                    first,
                    before,
                    post.first,
                    stopped,
                    resumed,
                    pauses.take(more),
                    middle,
                    Ok(()),
                );
            }
        }
    }
}

/// A failing run of the first behaviour is one of the chain.
proof fn lemma_chain_fails_with_first<
    E: ErrorType,
    C,
    A: BehaviourFunction<E, C>,
    B: BehaviourFunction<E, C>,
>(
    effects: Effects<E, C>,
    first: A,
    second: B,
    before: Ledger<E>,
    pauses: Seq<Pause<C>>,
    after: Ledger<E>,
    outcome: Outcome,
)
    requires
        outcome is Err,
        behaviour::runs(effects, first, before, pauses, after, outcome),
    ensures
        behaviour::runs::<E, C, Chain<A, B>>(
            effects,
            Chain { first, second, passed_on: false },
            before,
            pauses,
            after,
            outcome,
        ),
    decreases pauses.len(),
{
    let chain = Chain { first, second, passed_on: false };
    if pauses.len() == 0 {
        let last = Pause::<C>::Finish(outcome);
        let post = choose|post: A| #[trigger] A::segment(first, before, post, after, last);
        let whole = Chain { first: post, second, passed_on: false };
        assert(Chain::<A, B>::segment(chain, before, whole, after, last));
    } else {
        let (post, stopped, resumed) = lemma_run_begins(
            effects,
            first,
            before,
            pauses,
            after,
            outcome,
        );
        let whole = Chain { first: post, second, passed_on: false };
        lemma_chain_fails_with_first(
            effects,
            post,
            second,
            resumed,
            pauses.drop_first(),
            after,
            outcome,
        );
        lemma_run_extends(effects, chain, before, whole, stopped, resumed, pauses, after, outcome);
    }
}

/// A good run of the first behaviour and, at once, a run of the second are one of the chain.
proof fn lemma_chain_joins<
    E: ErrorType,
    C,
    A: BehaviourFunction<E, C>,
    B: BehaviourFunction<E, C>,
>(
    effects: Effects<E, C>,
    first: A,
    second: B,
    before: Ledger<E>,
    earlier: Seq<Pause<C>>,
    middle: Ledger<E>,
    later: Seq<Pause<C>>,
    after: Ledger<E>,
    outcome: Outcome,
)
    requires
        behaviour::runs(effects, first, before, earlier, middle, Ok(())),
        behaviour::runs(effects, second, middle, later, after, outcome),
    ensures
        behaviour::runs::<E, C, Chain<A, B>>(
            effects,
            Chain { first, second, passed_on: false },
            before,
            earlier + later,
            after,
            outcome,
        ),
    decreases earlier.len(),
{
    let chain = Chain { first, second, passed_on: false };
    let pauses = earlier + later;
    if earlier.len() == 0 {
        let end = Pause::<C>::Finish(Ok(()));
        let done = choose|done: A| #[trigger] A::segment(first, before, done, middle, end);
        if later.len() == 0 {
            let last = Pause::<C>::Finish(outcome);
            let post = choose|post: B| #[trigger] B::segment(second, middle, post, after, last);
            let whole = Chain { first: done, second: post, passed_on: true };
            assert(B::segment(chain.second, middle, whole.second, after, last));
            assert(Chain::<A, B>::segment(chain, before, whole, after, last));
        } else {
            let (post, stopped, resumed) = lemma_run_begins(
                effects,
                second,
                middle,
                later,
                after,
                outcome,
            );
            let whole = Chain { first: done, second: post, passed_on: true };
            lemma_passed_on(effects, whole, resumed, later.drop_first(), after, outcome);
            assert(B::segment(chain.second, middle, whole.second, stopped, pauses[0]));
            lemma_run_extends(
                effects,
                chain,
                before,
                whole,
                stopped,
                resumed,
                pauses,
                after,
                outcome,
            );
        }
    } else {
        let (post, stopped, resumed) = lemma_run_begins(
            effects,
            first,
            before,
            earlier,
            middle,
            Ok(()),
        );
        let whole = Chain { first: post, second, passed_on: false };
        lemma_chain_joins(
            effects,
            post,
            second,
            resumed,
            earlier.drop_first(),
            middle,
            later,
            after,
            outcome,
        );
        assert(pauses.drop_first() =~= earlier.drop_first() + later);
        lemma_run_extends(effects, chain, before, whole, stopped, resumed, pauses, after, outcome);
    }
}

/// A chain first executes its first behaviour, and then, with nothing in between, its second,
/// unless the first fails; and it does nothing else.
pub proof fn chain_runs_in_turn<
    E: ErrorType,
    C,
    A: BehaviourFunction<E, C>,
    B: BehaviourFunction<E, C>,
>(
    effects: Effects<E, C>,
    first: A,
    second: B,
    before: Ledger<E>,
    pauses: Seq<Pause<C>>,
    after: Ledger<E>,
    outcome: Outcome,
)
    ensures
        behaviour::runs::<E, C, Chain<A, B>>(
            effects,
            Chain { first, second, passed_on: false },
            before,
            pauses,
            after,
            outcome,
        ) <==> behaviour::runs_in_turn(effects, first, second, before, pauses, after, outcome),
{
    let chain = Chain { first, second, passed_on: false };
    if behaviour::runs::<E, C, Chain<A, B>>(effects, chain, before, pauses, after, outcome) {
        lemma_chain_splits(effects, first, second, before, pauses, after, outcome);
    }
    if behaviour::runs_in_turn(effects, first, second, before, pauses, after, outcome) {
        if outcome is Err && behaviour::runs(effects, first, before, pauses, after, outcome) {
            lemma_chain_fails_with_first(effects, first, second, before, pauses, after, outcome);
        } else {
            let (taken, middle) = lemma_second_begins(
                effects,
                first,
                second,
                before,
                pauses,
                after,
                outcome,
            );
            lemma_chain_joins(
                effects,
                first,
                second,
                before,
                pauses.take(taken),
                middle,
                pauses.skip(taken),
                after,
                outcome,
            );
            assert(pauses.take(taken) + pauses.skip(taken) =~= pauses);
        }
    }
}

/// Run one after the other, two behaviours add up in a chain: what the chain sends is what the
/// first sends and then what the second sends, what it receives is what the first receives and
/// then what the second receives, and it pauses as the first does and then as the second does.
pub proof fn chain_adds_up<
    E: ErrorType,
    C,
    A: BehaviourFunction<E, C>,
    B: BehaviourFunction<E, C>,
>(
    effects: Effects<E, C>,
    first: A,
    second: B,
    before: Ledger<E>,
    earlier: Seq<Pause<C>>,
    middle: Ledger<E>,
    later: Seq<Pause<C>>,
    after: Ledger<E>,
    outcome: Outcome,
    first_sends: Seq<InMessage<E>>,
    second_sends: Seq<InMessage<E>>,
    first_receives: Seq<Vec<u8>>,
    second_receives: Seq<Vec<u8>>,
)
    requires
        behaviour::runs(effects, first, before, earlier, middle, Ok(())),
        behaviour::runs(effects, second, middle, later, after, outcome),
        middle.sent.accepted == before.sent.accepted + first_sends,
        after.sent.accepted == middle.sent.accepted + second_sends,
        middle.seen.messages() == before.seen.messages() + first_receives,
        after.seen.messages() == middle.seen.messages() + second_receives,
    ensures
        behaviour::runs::<E, C, Chain<A, B>>(
            effects,
            Chain { first, second, passed_on: false },
            before,
            earlier + later,
            after,
            outcome,
        ),
        after.sent.accepted == before.sent.accepted + (first_sends + second_sends),
        after.seen.messages() == before.seen.messages() + (first_receives + second_receives),
{
    lemma_chain_joins(effects, first, second, before, earlier, middle, later, after, outcome);
}

/// From a chain of a chain and a third behaviour to a chain of the first and the others.
proof fn lemma_brackets_move_right<
    E: ErrorType,
    C,
    A: BehaviourFunction<E, C>,
    B: BehaviourFunction<E, C>,
    D: BehaviourFunction<E, C>,
>(
    effects: Effects<E, C>,
    first: A,
    second: B,
    third: D,
    before: Ledger<E>,
    pauses: Seq<Pause<C>>,
    after: Ledger<E>,
    outcome: Outcome,
)
    requires
        behaviour::runs_in_turn::<E, C, Chain<A, B>, D>(
            effects,
            Chain { first, second, passed_on: false },
            third,
            before,
            pauses,
            after,
            outcome,
        ),
    ensures
        behaviour::runs_in_turn::<E, C, A, Chain<B, D>>(
            effects,
            first,
            Chain { first: second, second: third, passed_on: false },
            before,
            pauses,
            after,
            outcome,
        ),
{
    let early = Chain { first, second, passed_on: false };
    if outcome is Err && behaviour::runs::<E, C, Chain<A, B>>(
        effects,
        early,
        before,
        pauses,
        after,
        outcome,
    ) {
        chain_runs_in_turn(effects, first, second, before, pauses, after, outcome);
        if !behaviour::runs(effects, first, before, pauses, after, outcome) {
            let (taken, middle) = lemma_second_begins(
                effects,
                first,
                second,
                before,
                pauses,
                after,
                outcome,
            );
            chain_runs_in_turn(effects, second, third, middle, pauses.skip(taken), after, outcome);
        }
    } else {
        let (taken, middle) = lemma_second_begins(
            effects,
            early,
            third,
            before,
            pauses,
            after,
            outcome,
        );
        let begun = pauses.take(taken);
        chain_runs_in_turn(effects, first, second, before, begun, middle, Ok(()));
        let (part, sooner) = lemma_second_begins(
            effects,
            first,
            second,
            before,
            begun,
            middle,
            Ok(()),
        );
        lemma_chain_joins(
            effects,
            second,
            third,
            sooner,
            begun.skip(part),
            middle,
            pauses.skip(taken),
            after,
            outcome,
        );
        assert(begun.take(part) =~= pauses.take(part));
        assert(begun.skip(part) + pauses.skip(taken) =~= pauses.skip(part));
    }
}

/// From a chain of a behaviour and two others to a chain of the first two and the last.
proof fn lemma_brackets_move_left<
    E: ErrorType,
    C,
    A: BehaviourFunction<E, C>,
    B: BehaviourFunction<E, C>,
    D: BehaviourFunction<E, C>,
>(
    effects: Effects<E, C>,
    first: A,
    second: B,
    third: D,
    before: Ledger<E>,
    pauses: Seq<Pause<C>>,
    after: Ledger<E>,
    outcome: Outcome,
)
    requires
        behaviour::runs_in_turn::<E, C, A, Chain<B, D>>(
            effects,
            first,
            Chain { first: second, second: third, passed_on: false },
            before,
            pauses,
            after,
            outcome,
        ),
    ensures
        behaviour::runs_in_turn::<E, C, Chain<A, B>, D>(
            effects,
            Chain { first, second, passed_on: false },
            third,
            before,
            pauses,
            after,
            outcome,
        ),
{
    let late = Chain { first: second, second: third, passed_on: false };
    if outcome is Err && behaviour::runs(effects, first, before, pauses, after, outcome) {
        lemma_chain_fails_with_first(effects, first, second, before, pauses, after, outcome);
    } else {
        let (taken, middle) = lemma_second_begins(
            effects,
            first,
            late,
            before,
            pauses,
            after,
            outcome,
        );
        let begun = pauses.take(taken);
        let rest = pauses.skip(taken);
        chain_runs_in_turn(effects, second, third, middle, rest, after, outcome);
        if outcome is Err && behaviour::runs(effects, second, middle, rest, after, outcome) {
            lemma_chain_joins(effects, first, second, before, begun, middle, rest, after, outcome);
            assert(begun + rest =~= pauses);
        } else {
            let (part, later) = lemma_second_begins(
                effects,
                second,
                third,
                middle,
                rest,
                after,
                outcome,
            );
            lemma_chain_joins(
                effects,
                first,
                second,
                before,
                begun,
                middle,
                rest.take(part),
                later,
                Ok(()),
            );
            let both = taken + part;
            assert(begun + rest.take(part) =~= pauses.take(both));
            assert(rest.skip(part) =~= pauses.skip(both));
        }
    }
}

/// It does not matter how a series of behaviours is put in brackets.
pub proof fn chaining_is_associative<
    E: ErrorType,
    C,
    A: BehaviourFunction<E, C>,
    B: BehaviourFunction<E, C>,
    D: BehaviourFunction<E, C>,
>(
    effects: Effects<E, C>,
    first: A,
    second: B,
    third: D,
    before: Ledger<E>,
    pauses: Seq<Pause<C>>,
    after: Ledger<E>,
    outcome: Outcome,
)
    ensures
        behaviour::runs::<E, C, Chain<Chain<A, B>, D>>(
            effects,
            Chain {
                first: Chain { first, second, passed_on: false },
                second: third,
                passed_on: false,
            },
            before,
            pauses,
            after,
            outcome,
        ) <==> behaviour::runs::<E, C, Chain<A, Chain<B, D>>>(
            effects,
            Chain {
                first,
                second: Chain { first: second, second: third, passed_on: false },
                passed_on: false,
            },
            before,
            pauses,
            after,
            outcome,
        ),
{
    let early = Chain { first, second, passed_on: false };
    let late = Chain { first: second, second: third, passed_on: false };
    chain_runs_in_turn::<E, C, Chain<A, B>, D>(
        effects,
        early,
        third,
        before,
        pauses,
        after,
        outcome,
    );
    chain_runs_in_turn::<E, C, A, Chain<B, D>>(
        effects,
        first,
        late,
        before,
        pauses,
        after,
        outcome,
    );
    if behaviour::runs_in_turn::<E, C, Chain<A, B>, D>(
        effects,
        early,
        third,
        before,
        pauses,
        after,
        outcome,
    ) {
        lemma_brackets_move_right(effects, first, second, third, before, pauses, after, outcome);
    }
    if behaviour::runs_in_turn::<E, C, A, Chain<B, D>>(
        effects,
        first,
        late,
        before,
        pauses,
        after,
        outcome,
    ) {
        lemma_brackets_move_left(effects, first, second, third, before, pauses, after, outcome);
    }
}

/// Resuming a behaviour step by step is a run of it: its last segment is one without a pause, and
/// any other segment, put before a run of what is left of the behaviour, makes it a run that
/// pauses once more.
pub proof fn resuming_makes_a_run<E: ErrorType, C, B: BehaviourFunction<E, C>>(
    effects: Effects<E, C>,
    behaviour: B,
    before: Ledger<E>,
    post: B,
    stopped: Ledger<E>,
    pause: Pause<C>,
)
    requires
        B::segment(behaviour, before, post, stopped, pause),
    ensures
        match pause {
            Pause::Finish(outcome) => behaviour::runs(
                effects,
                behaviour,
                before,
                Seq::<Pause<C>>::empty(),
                stopped,
                outcome,
            ),
            _ => forall|
                resumed: Ledger<E>,
                pauses: Seq<Pause<C>>,
                after: Ledger<E>,
                outcome: Outcome,
            |
                #![trigger behaviour::while_paused(
                    effects,
                    pause,
                    stopped,
                    resumed,
                ), behaviour::runs(
                    effects,
                    post,
                    resumed,
                    pauses,
                    after,
                    outcome,
                )]
                behaviour::while_paused(effects, pause, stopped, resumed) && behaviour::runs(
                    effects,
                    post,
                    resumed,
                    pauses,
                    after,
                    outcome,
                ) ==> behaviour::runs(
                    effects,
                    behaviour,
                    before,
                    seq![pause] + pauses,
                    after,
                    outcome,
                ),
        },
{
    if !(pause is Finish) {
        assert forall|
            resumed: Ledger<E>,
            pauses: Seq<Pause<C>>,
            after: Ledger<E>,
            outcome: Outcome,
        |
            #![trigger behaviour::while_paused(effects, pause, stopped, resumed), behaviour::runs(
                effects,
                post,
                resumed,
                pauses,
                after,
                outcome,
            )]
            behaviour::while_paused(effects, pause, stopped, resumed) && behaviour::runs(
                effects,
                post,
                resumed,
                pauses,
                after,
                outcome,
            ) implies behaviour::runs(
                effects,
                behaviour,
                before,
                seq![pause] + pauses,
                after,
                outcome,
            ) by {
            let all = seq![pause] + pauses;
            assert(all.drop_first() =~= pauses);
            lemma_run_extends(
                effects,
                behaviour,
                before,
                post,
                stopped,
                resumed,
                all,
                after,
                outcome,
            );
        }
    }
}

/// A run without a pause is one last segment. Any other is a segment that pauses, and then a run
/// of what is left of the behaviour; in between, nothing goes through the handles, unless the
/// pause was for a step, and then just what the step does.
pub proof fn run_is_its_segments<E: ErrorType, C, B: BehaviourFunction<E, C>>(
    effects: Effects<E, C>,
    behaviour: B,
    before: Ledger<E>,
    pauses: Seq<Pause<C>>,
    after: Ledger<E>,
    outcome: Outcome,
    stopped: Ledger<E>,
    resumed: Ledger<E>,
)
    ensures
        pauses.len() == 0 ==> (behaviour::runs(effects, behaviour, before, pauses, after, outcome)
            <==> exists|post: B| #[trigger]
            B::segment(behaviour, before, post, after, Pause::Finish(outcome))),
        pauses.len() > 0 ==> (behaviour::runs(effects, behaviour, before, pauses, after, outcome)
            <==> !(pauses[0] is Finish) && exists|
            post: B,
            stopped: Ledger<E>,
            resumed: Ledger<E>,
        |
            {
                &&& #[trigger] B::segment(behaviour, before, post, stopped, pauses[0])
                &&& #[trigger] behaviour::while_paused(effects, pauses[0], stopped, resumed)
                &&& behaviour::runs(effects, post, resumed, pauses.drop_first(), after, outcome)
            }),
        pauses.len() > 0 && pauses[0] is Call ==> (behaviour::while_paused(
            effects,
            pauses[0],
            stopped,
            resumed,
        ) <==> effects(pauses[0]->Call_0, stopped, resumed) && stopped.grows_to(resumed)),
        pauses.len() > 0 && !(pauses[0] is Call) ==> (behaviour::while_paused(
            effects,
            pauses[0],
            stopped,
            resumed,
        ) <==> resumed == stopped),
{
}

/// A run of a chain is a failed run of its first behaviour, or a good one and, with nothing in
/// between, one of its second; and each of these is a run of the chain.
pub proof fn chain_is_first_and_then_second<
    E: ErrorType,
    C,
    A: BehaviourFunction<E, C>,
    B: BehaviourFunction<E, C>,
>(
    effects: Effects<E, C>,
    first: A,
    second: B,
    before: Ledger<E>,
    pauses: Seq<Pause<C>>,
    after: Ledger<E>,
    outcome: Outcome,
)
    ensures
        behaviour::runs::<E, C, Chain<A, B>>(
            effects,
            Chain { first, second, passed_on: false },
            before,
            pauses,
            after,
            outcome,
        ) <==> {
            ||| outcome is Err && behaviour::runs(effects, first, before, pauses, after, outcome)
            ||| exists|taken: int, middle: Ledger<E>|
                {
                    &&& 0 <= taken <= pauses.len()
                    &&& #[trigger] behaviour::runs(
                        effects,
                        first,
                        before,
                        pauses.take(taken),
                        middle,
                        Ok(()),
                    )
                    &&& #[trigger] behaviour::runs(
                        effects,
                        second,
                        middle,
                        pauses.skip(taken),
                        after,
                        outcome,
                    )
                }
        },
        behaviour::runs::<E, C, Chain<A, B>>(
            effects,
            Chain { first, second, passed_on: true },
            before,
            pauses,
            after,
            outcome,
        ) <==> behaviour::runs(effects, second, before, pauses, after, outcome),
{
    chain_runs_in_turn(effects, first, second, before, pauses, after, outcome);
    lemma_passed_on(
        effects,
        Chain { first, second, passed_on: true },
        before,
        pauses,
        after,
        outcome,
    );
}

/// A run of a behaviour pauses no more often than the behaviour's bound says, so that it ends;
/// and it takes back nothing of what has gone through the handles.
pub proof fn runs_are_bounded<E: ErrorType, C, B: BehaviourFunction<E, C>>(
    effects: Effects<E, C>,
    behaviour: B,
    before: Ledger<E>,
    pauses: Seq<Pause<C>>,
    after: Ledger<E>,
    outcome: Outcome,
)
    requires
        behaviour.ready(),
        behaviour::runs(effects, behaviour, before, pauses, after, outcome),
    ensures
        pauses.len() <= behaviour.bound(),
        before.grows_to(after),
    decreases pauses.len(),
{
    if pauses.len() == 0 {
        let last = Pause::<C>::Finish(outcome);
        let post = choose|post: B| #[trigger] B::segment(behaviour, before, post, after, last);
        B::progress(behaviour, before, post, after, last);
    } else {
        let (post, stopped, resumed) = lemma_run_begins(
            effects,
            behaviour,
            before,
            pauses,
            after,
            outcome,
        );
        B::progress(behaviour, before, post, stopped, pauses[0]);
        runs_are_bounded(effects, post, resumed, pauses.drop_first(), after, outcome);
    }
}

/// A session passes where neither it nor the behaviour ended with an error, and nowhere else; and
/// where both did, the session's error is the one that is reported.
pub proof fn any_error_rejects<E>(session: Result<(), E>, behaviour: Outcome)
    ensures
        outcome::judged(session, behaviour) is Ok <==> session is Ok && behaviour is Ok,
        session is Err ==> outcome::judged(session, behaviour) == Err::<(), Rejection<E>>(
            Rejection::SessionError(session->Err_0),
        ),
        session is Ok && behaviour is Err ==> outcome::judged(session, behaviour) == Err::<
            (),
            Rejection<E>,
        >(Rejection::BehaviourError(behaviour->Err_0)),
{
}

} // verus!
