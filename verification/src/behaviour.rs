//! Behaviours: what they are, how one follows another, and what a whole run of one is.

use crate::channel::{ErrorType, InMessage, InSender, OutReceiver, Seen, Sent};
use crate::outcome::Outcome;
use vstd::prelude::*;

verus! {

/// Why a behaviour hands control back. All but the last are done by whoever drives the
/// behaviour, who then resumes it.
#[derive(Debug, PartialEq, Eq)]
pub enum Pause<C> {
    /// Let the other tasks run.
    Yield,
    /// Stop the clock.
    FreezeClock,
    /// Sleep for so many milliseconds.
    Sleep(u64),
    /// Let the clock run again.
    ThawClock,
    /// Carry out a step that the behaviour was given, with the behaviour's two handles.
    Call(C),
    /// The behaviour has ended.
    Finish(Outcome),
}

/// What went through the two handles of a behaviour.
#[verifier::ext_equal]
pub struct Ledger<E> {
    /// Through the sender.
    pub sent: Sent<InMessage<E>>,
    /// Through the receiver.
    pub seen: Seen<Vec<u8>>,
}

impl<E> Ledger<E> {
    /// The ledger of a pair of handles.
    pub open spec fn of(in_sender: InSender<E>, out_receiver: OutReceiver) -> Self {
        Ledger { sent: in_sender@, seen: out_receiver@ }
    }

    /// Nothing went through either.
    pub open spec fn empty() -> Self {
        Ledger { sent: Sent::empty(), seen: Seen::empty() }
    }

    /// The same, with the receiver's channel closed.
    pub open spec fn shut(self) -> Self {
        Ledger { sent: self.sent, seen: self.seen.shut() }
    }

    /// Everything in `self` also stands in `after`.
    pub open spec fn grows_to(self, after: Self) -> bool {
        &&& self.sent.grows_to(after.sent)
        &&& self.seen.grows_to(after.seen)
    }
}

/// Sends messages to the provided sender and checks responses on the provided receiver, thereby
/// testing expected behaviour. It does so in segments: each call of `resume` runs to the next
/// point at which the behaviour has to wait, or to its end. Any type that can be cut into such
/// segments can be one; `C` is the type of the steps that it leaves to whoever drives it.
pub trait BehaviourFunction<E: ErrorType, C>: Sized {
    /// The behaviour can be resumed.
    spec fn ready(&self) -> bool;

    /// No more pauses than this are left.
    spec fn bound(&self) -> nat;

    /// A segment can begin in `pre` with the ledger `before`, and stop in `post` with the ledger
    /// `after` and for the reason `pause`.
    spec fn segment(
        pre: Self,
        before: Ledger<E>,
        post: Self,
        after: Ledger<E>,
        pause: Pause<C>,
    ) -> bool;

    /// A segment that is not the last leaves the behaviour ready, with fewer pauses left; and no
    /// segment takes back what has gone through the handles.
    proof fn progress(pre: Self, before: Ledger<E>, post: Self, after: Ledger<E>, pause: Pause<C>)
        requires
            pre.ready(),
            Self::segment(pre, before, post, after, pause),
        ensures
            !(pause is Finish) ==> post.ready() && post.bound() < pre.bound(),
            before.grows_to(after),
    ;

    /// Runs the next segment.
    fn resume(&mut self, in_sender: &mut InSender<E>, out_receiver: &mut OutReceiver) -> (pause:
        Pause<C>)
        requires
            old(self).ready(),
        ensures
            final(in_sender).stream() == old(in_sender).stream(),
            final(out_receiver).stream() == old(out_receiver).stream(),
            old(in_sender).wf() ==> final(in_sender).wf(),
            old(out_receiver).wf() ==> final(out_receiver).wf(),
            Self::segment(
                *old(self),
                Ledger::of(*old(in_sender), *old(out_receiver)),
                *final(self),
                Ledger::of(*final(in_sender), *final(out_receiver)),
                pause,
            ),
            !(pause is Finish) ==> final(self).ready() && final(self).bound() < old(self).bound(),
    ;
}

/// What the steps do to the ledger of the behaviour for which they are carried out: whether a
/// step can find the one ledger and leave the other.
pub type Effects<E, C> = spec_fn(C, Ledger<E>, Ledger<E>) -> bool;

/// What can have become of a behaviour's ledger when it is resumed: only a step that was carried
/// out for it adds to the ledger.
pub open spec fn while_paused<E, C>(
    effects: Effects<E, C>,
    pause: Pause<C>,
    stopped: Ledger<E>,
    resumed: Ledger<E>,
) -> bool {
    match pause {
        Pause::Call(step) => effects(step, stopped, resumed) && stopped.grows_to(resumed),
        _ => resumed == stopped,
    }
}

/// A whole run: `behaviour`, begun with the ledger `before`, can pause for the reasons `pauses`,
/// in this order, and then end with the ledger `after` and with `outcome`, where the steps that
/// it has carried out have the given effects.
pub open spec fn runs<E: ErrorType, C, B: BehaviourFunction<E, C>>(
    effects: Effects<E, C>,
    behaviour: B,
    before: Ledger<E>,
    pauses: Seq<Pause<C>>,
    after: Ledger<E>,
    outcome: Outcome,
) -> bool
    decreases pauses.len(),
{
    if pauses.len() == 0 {
        exists|post: B| #[trigger]
            B::segment(behaviour, before, post, after, Pause::Finish(outcome))
    } else {
        &&& !(pauses[0] is Finish)
        &&& exists|post: B, stopped: Ledger<E>, resumed: Ledger<E>|
            {
                &&& #[trigger] B::segment(behaviour, before, post, stopped, pauses[0])
                &&& #[trigger] while_paused(effects, pauses[0], stopped, resumed)
                &&& runs(effects, post, resumed, pauses.drop_first(), after, outcome)
            }
    }
}

/// A run of `first` and, where that ends well, at once a run of `second`.
pub open spec fn runs_in_turn<
    E: ErrorType,
    C,
    A: BehaviourFunction<E, C>,
    B: BehaviourFunction<E, C>,
>(
    effects: Effects<E, C>,
    first: A,
    second: B,
    before: Ledger<E>,
    pauses: Seq<Pause<C>>,
    after: Ledger<E>,
    outcome: Outcome,
) -> bool {
    ||| outcome is Err && runs(effects, first, before, pauses, after, outcome)
    ||| exists|taken: int, middle: Ledger<E>|
        {
            &&& 0 <= taken <= pauses.len()
            &&& #[trigger] runs(effects, first, before, pauses.take(taken), middle, Ok(()))
            &&& #[trigger] runs(effects, second, middle, pauses.skip(taken), after, outcome)
        }
}

/// A behaviour followed by another. The second begins in the very segment in which the first
/// ends well, and never where the first fails.
#[derive(Debug, PartialEq, Eq)]
pub struct Chain<A, B> {
    /// What runs first.
    pub first: A,
    /// What follows.
    pub second: B,
    /// Whether the first has ended well.
    pub passed_on: bool,
}

impl<A, B> Chain<A, B> {
    /// Puts `second` behind `first`.
    pub fn new(first: A, second: B) -> (chain: Self)
        ensures
            chain == (Chain { first, second, passed_on: false }),
    {
        Chain { first, second, passed_on: false }
    }
}

impl<
    E: ErrorType,
    C,
    A: BehaviourFunction<E, C>,
    B: BehaviourFunction<E, C>,
> BehaviourFunction<E, C> for Chain<A, B> {
    open spec fn ready(&self) -> bool {
        &&& !self.passed_on ==> self.first.ready()
        &&& self.second.ready()
    }

    open spec fn bound(&self) -> nat {
        if self.passed_on {
            self.second.bound()
        } else {
            self.first.bound() + self.second.bound()
        }
    }

    open spec fn segment(
        pre: Self,
        before: Ledger<E>,
        post: Self,
        after: Ledger<E>,
        pause: Pause<C>,
    ) -> bool {
        if pre.passed_on {
            &&& post.passed_on
            &&& B::segment(pre.second, before, post.second, after, pause)
        } else if !post.passed_on {
            &&& pause != Pause::<C>::Finish(Ok(()))
            &&& post.second == pre.second
            &&& A::segment(pre.first, before, post.first, after, pause)
        } else {
            exists|middle: Ledger<E>|
                #![trigger B::segment(pre.second, middle, post.second, after, pause)]
                A::segment(pre.first, before, post.first, middle, Pause::Finish(Ok(())))
                    && B::segment(pre.second, middle, post.second, after, pause)
        }
    }

    proof fn progress(pre: Self, before: Ledger<E>, post: Self, after: Ledger<E>, pause: Pause<C>) {
        if pre.passed_on {
            B::progress(pre.second, before, post.second, after, pause);
        } else if !post.passed_on {
            A::progress(pre.first, before, post.first, after, pause);
        } else {
            let middle = choose|middle: Ledger<E>|
                #![trigger B::segment(pre.second, middle, post.second, after, pause)]
                A::segment(pre.first, before, post.first, middle, Pause::Finish(Ok(())))
                    && B::segment(pre.second, middle, post.second, after, pause);
            A::progress(pre.first, before, post.first, middle, Pause::Finish(Ok(())));
            B::progress(pre.second, middle, post.second, after, pause);
        }
    }

    fn resume(&mut self, in_sender: &mut InSender<E>, out_receiver: &mut OutReceiver) -> (pause:
        Pause<C>)
        ensures
            ({
                let before = Ledger { sent: old(in_sender)@, seen: old(out_receiver)@ };
                let after = Ledger { sent: final(in_sender)@, seen: final(out_receiver)@ };
                if old(self).passed_on {
                    &&& final(self).passed_on
                    &&& final(self).first == old(self).first
                    &&& B::segment(old(self).second, before, final(self).second, after, pause)
                } else if !final(self).passed_on {
                    &&& pause != Pause::<C>::Finish(Ok(()))
                    &&& final(self).second == old(self).second
                    &&& A::segment(old(self).first, before, final(self).first, after, pause)
                } else {
                    exists|middle: Ledger<E>|
                        {
                            &&& A::segment(
                                old(self).first,
                                before,
                                final(self).first,
                                middle,
                                Pause::Finish(Ok(())),
                            )
                            &&& #[trigger] B::segment(
                                old(self).second,
                                middle,
                                final(self).second,
                                after,
                                pause,
                            )
                        }
                }
            }),
    {
        if self.passed_on {
            return self.second.resume(in_sender, out_receiver);
        }
        let ended = self.first.resume(in_sender, out_receiver);
        match ended {
            Pause::Finish(Ok(())) => {},
            _ => {
                return ended;
            },
        }
        self.passed_on = true;
        let ghost middle = Ledger::of(*in_sender, *out_receiver);
        assert(ended->Finish_0->Ok_0 == ());
        let pause = self.second.resume(in_sender, out_receiver);
        let ghost after = Ledger::of(*in_sender, *out_receiver);
        assert(B::segment(old(self).second, middle, self.second, after, pause));
        pause
    }
}

/// Enables chaining of behaviours.
pub trait Chainable<E: ErrorType, C>: BehaviourFunction<E, C> {
    /// Constructs a behaviour which will first execute `self`, and then `followed_by`.
    fn then<S: BehaviourFunction<E, C>>(self, followed_by: S) -> (chain: Chain<Self, S>)
        ensures
            chain == (Chain { first: self, second: followed_by, passed_on: false }),
            <Chain<Self, S> as BehaviourFunction<E, C>>::ready(&chain) <==> self.ready()
                && followed_by.ready(),
    ;
}

impl<E: ErrorType, C, T: BehaviourFunction<E, C>> Chainable<E, C> for T {
    fn then<S: BehaviourFunction<E, C>>(self, followed_by: S) -> (chain: Chain<Self, S>) {
        Chain::new(self, followed_by)
    }
}

} // verus!
