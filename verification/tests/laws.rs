use std::convert::Infallible;
use std::task::Context;

use futures::future::{ready, Ready};
use futures::task::noop_waker_ref;
use session_behaviour::steps::{check_disconnected, check_message, convert};
use session_behaviour::{
    assert_behaviour, assert_behaviour_reading, assert_receive, channel, in_channel,
    into_behaviour, out_channel, receive, send, send_data, sleep_in_pause, verdict,
    wait_for_disconnect, AsBytes, AsMessage, BehaviourFunction, Chainable, Failure, InMessage,
    InReceiver, InSender, Observed, OutReceiver, OutSender, Outcome, Pause, Reads, Rejection, Run,
    Unread,
};

#[derive(Debug, PartialEq, Eq)]
enum SessionError {
    Odd(usize),
    Broken,
}

impl From<Infallible> for SessionError {
    fn from(_: Infallible) -> Self {
        SessionError::Broken
    }
}

/// Converts to bytes only where its length is even.
#[derive(Debug, PartialEq, Eq)]
struct Even(Vec<u8>);

#[derive(Debug, PartialEq, Eq)]
struct OddLength(usize);

impl TryFrom<Even> for Vec<u8> {
    type Error = OddLength;

    fn try_from(even: Even) -> Result<Vec<u8>, OddLength> {
        if even.0.len() % 2 == 0 {
            Ok(even.0)
        } else {
            Err(OddLength(even.0.len()))
        }
    }
}

impl From<OddLength> for SessionError {
    fn from(odd: OddLength) -> Self {
        SessionError::Odd(odd.0)
    }
}

type Call = &'static str;

struct Ends {
    in_sender: InSender<SessionError>,
    in_receiver: InReceiver<SessionError>,
    out_sender: OutSender,
    out_receiver: OutReceiver,
}

fn ends() -> Ends {
    let (in_sender, in_receiver) = in_channel(Unread);
    let (out_sender, out_receiver) = out_channel();
    Ends { in_sender, in_receiver, out_sender, out_receiver }
}

/// Resumes `behaviour` to its end and lists its pauses.
fn play<B: BehaviourFunction<SessionError, Call>>(
    mut behaviour: B,
    ends: &mut Ends,
) -> (Vec<Pause<Call>>, Outcome) {
    let mut pauses = Vec::new();
    loop {
        match behaviour.resume(&mut ends.in_sender, &mut ends.out_receiver) {
            Pause::Finish(outcome) => return (pauses, outcome),
            pause => pauses.push(pause),
        }
    }
}

fn sending(data: &[u8]) -> impl BehaviourFunction<SessionError, Call> {
    send::<Vec<u8>, SessionError, Call>(data.to_vec())
}

type Kept = (InReceiver<SessionError>, OutSender);

fn start<B: BehaviourFunction<SessionError, Call>>(
    behaviour: B,
) -> (Ready<Result<(), SessionError>>, Run<SessionError, Call, B>, Kept) {
    let mut kept = None;
    let (session, run) = assert_behaviour(
        |in_receiver, out_sender| {
            kept = Some((in_receiver, out_sender));
            ready(Ok(()))
        },
        behaviour,
    );
    (session, run, kept.expect("The factory was not called"))
}

#[test]
fn chain_runs_first_and_then_second() {
    let mut ends = ends();
    let chain = sending(&[1]).then(into_behaviour("step")).then(sending(&[2]));

    let (pauses, outcome) = play(chain, &mut ends);

    assert_eq!(vec![Pause::Yield, Pause::Call("step"), Pause::Yield], pauses);
    assert_eq!(Ok(()), outcome);
    assert_eq!(Observed::Message(Ok(vec![1])), ends.in_receiver.observe());
    assert_eq!(Observed::Message(Ok(vec![2])), ends.in_receiver.observe());
    assert_eq!(Observed::Nothing, ends.in_receiver.observe());
}

#[test]
fn chain_enters_second_without_a_pause() {
    let mut ends = ends();
    let mut chain = into_behaviour::<SessionError, Call>("step").then(sending(&[7]));

    let first = chain.resume(&mut ends.in_sender, &mut ends.out_receiver);
    assert_eq!(Pause::Call("step"), first);
    assert_eq!(Observed::Nothing, ends.in_receiver.observe());

    let second = chain.resume(&mut ends.in_sender, &mut ends.out_receiver);
    assert_eq!(Pause::Yield, second);
    assert_eq!(Observed::Message(Ok(vec![7])), ends.in_receiver.observe());
}

#[test]
fn chain_stops_where_first_fails() {
    let mut ends = ends();
    let chain = receive::<SessionError, _, Call>(|_| true).then(sending(&[2]));

    let (pauses, outcome) = play(chain, &mut ends);

    assert_eq!(vec![Pause::Yield], pauses);
    assert_eq!(Err(Failure::NoMessage), outcome);
    assert_eq!(Observed::Nothing, ends.in_receiver.observe());
}

#[test]
fn chaining_is_associative() {
    let mut left = ends();
    let mut right = ends();

    let in_left = play(
        sending(&[1]).then(sleep_in_pause(9)).then(sending(&[2])),
        &mut left,
    );
    let in_right = play(
        sending(&[1]).then(sleep_in_pause(9).then(sending(&[2]))),
        &mut right,
    );

    assert_eq!(in_left, in_right);
    assert_eq!(
        vec![
            Pause::Yield,
            Pause::FreezeClock,
            Pause::Sleep(9),
            Pause::ThawClock,
            Pause::Yield
        ],
        in_left.0
    );
    for ends in [&mut left, &mut right] {
        assert_eq!(Observed::Message(Ok(vec![1])), ends.in_receiver.observe());
        assert_eq!(Observed::Message(Ok(vec![2])), ends.in_receiver.observe());
        assert_eq!(Observed::Nothing, ends.in_receiver.observe());
    }
}

#[test]
fn send_converts_its_data() {
    let mut ends = ends();

    let (pauses, outcome) = play(send::<Even, _, _>(Even(vec![1, 2])), &mut ends);
    assert_eq!((vec![Pause::Yield], Ok(())), (pauses, outcome));
    let (pauses, outcome) = play(send::<Even, _, _>(Even(vec![1, 2, 3])), &mut ends);
    assert_eq!((vec![Pause::Yield], Ok(())), (pauses, outcome));

    assert_eq!(Observed::Message(Ok(vec![1, 2])), ends.in_receiver.observe());
    assert_eq!(
        Observed::Message(Err(SessionError::Odd(3))),
        ends.in_receiver.observe()
    );
}

#[test]
fn convert_transforms_errors() {
    let bytes: InMessage<SessionError> = convert(Even(vec![5, 6]));
    let error: InMessage<SessionError> = convert(Even(vec![5]));

    assert_eq!(Ok(vec![5, 6]), bytes);
    assert_eq!(Err(SessionError::Odd(1)), error);
}

#[test]
fn sends_keep_their_order() {
    let mut ends = ends();

    let played = play(sending(&[1]).then(sending(&[2])), &mut ends);

    assert_eq!((vec![Pause::Yield, Pause::Yield], Ok(())), played);
    assert_eq!(Observed::Message(Ok(vec![1])), ends.in_receiver.observe());
    assert_eq!(Observed::Message(Ok(vec![2])), ends.in_receiver.observe());
    assert_eq!(Observed::Nothing, ends.in_receiver.observe());
}

#[test]
fn refusal_is_final() {
    let mut ends = ends();
    ends.in_receiver.close();

    assert_eq!(Err(Failure::SendFailed), send_data(&mut ends.in_sender, vec![1]));
    assert_eq!((vec![], Err(Failure::SendFailed)), play(sending(&[2]), &mut ends));
    assert_eq!(Err(Ok(vec![3])), ends.in_sender.send(Ok(vec![3])));
    assert_eq!(Observed::Closed, ends.in_receiver.observe());
}

#[test]
fn send_fails_where_the_session_is_gone() {
    let (mut in_sender, in_receiver) = in_channel::<SessionError, Unread>(Unread);
    drop(in_receiver);

    assert_eq!(Err(Failure::SendFailed), send_data(&mut in_sender, vec![1]));
}

#[test]
fn receive_yields_and_looks_once() {
    let mut ends = ends();
    ends.out_sender.send(vec![1]).expect("Send failed");
    ends.out_sender.send(vec![2]).expect("Send failed");

    let played = play(receive(|bytes| bytes == vec![1]), &mut ends);
    assert_eq!((vec![Pause::Yield], Ok(())), played);

    let played = play(receive(|bytes| bytes == vec![1]), &mut ends);
    assert_eq!((vec![Pause::Yield], Err(Failure::UnexpectedMessage)), played);

    let played = play(receive(|_| true), &mut ends);
    assert_eq!((vec![Pause::Yield], Err(Failure::NoMessage)), played);
}

#[test]
fn end_of_messages_is_final() {
    let mut ends = ends();
    ends.out_sender.send(vec![1]).expect("Send failed");
    ends.out_receiver.close();
    assert_eq!(Err(vec![2]), ends.out_sender.send(vec![2]));

    assert_eq!(Ok(()), assert_receive(&mut ends.out_receiver, |bytes| bytes == vec![1]));
    assert_eq!(
        Err(Failure::SessionClosed),
        assert_receive(&mut ends.out_receiver, |_| true)
    );
    assert_eq!(
        (vec![Pause::Yield], Err(Failure::SessionClosed)),
        play(receive(|_| true), &mut ends)
    );
}

#[test]
fn checks_tell_the_failures_apart() {
    assert_eq!(Err(Failure::NoMessage), check_message(Observed::Nothing, |_| true));
    assert_eq!(Err(Failure::SessionClosed), check_message(Observed::Closed, |_| true));
    assert_eq!(
        Err(Failure::UnexpectedMessage),
        check_message(Observed::Message(vec![1]), |bytes| bytes == vec![2])
    );
    assert_eq!(
        Ok(()),
        check_message(Observed::Message(vec![1]), |bytes| bytes == vec![1])
    );

    assert_eq!(Ok(()), check_disconnected(Observed::Closed));
    assert_eq!(Err(Failure::StillConnected), check_disconnected(Observed::Nothing));
    assert_eq!(
        Err(Failure::StillConnected),
        check_disconnected(Observed::Message(vec![1]))
    );
}

#[test]
fn sleep_freezes_sleeps_and_thaws() {
    let mut ends = ends();

    let (pauses, outcome) = play(sleep_in_pause(3000), &mut ends);

    assert_eq!(
        vec![Pause::FreezeClock, Pause::Sleep(3000), Pause::ThawClock],
        pauses
    );
    assert_eq!(Ok(()), outcome);
}

#[test]
fn wait_for_disconnect_sleeps_and_looks_once() {
    let pauses = || vec![Pause::FreezeClock, Pause::Sleep(5050), Pause::ThawClock];

    let mut connected = ends();
    assert_eq!(
        (pauses(), Err(Failure::StillConnected)),
        play(wait_for_disconnect(), &mut connected)
    );

    let mut talking = ends();
    talking.out_sender.send(vec![1]).expect("Send failed");
    assert_eq!(
        (pauses(), Err(Failure::StillConnected)),
        play(wait_for_disconnect(), &mut talking)
    );

    let mut gone = ends();
    gone.out_sender = out_channel().0;
    assert_eq!((pauses(), Ok(())), play(wait_for_disconnect(), &mut gone));
}

#[test]
fn custom_step_is_called_once() {
    let mut ends = ends();

    let (pauses, outcome) = play(into_behaviour("step"), &mut ends);

    assert_eq!(vec![Pause::Call("step")], pauses);
    assert_eq!(Ok(()), outcome);
}

#[test]
fn run_connects_session_and_behaviour() {
    let (_, mut run, (mut in_receiver, mut out_sender)) =
        start(sending(&[1]).then(receive(|bytes| bytes == vec![2])));

    assert_eq!(Pause::Yield, run.resume());
    assert_eq!(Observed::Message(Ok(vec![1])), in_receiver.observe());
    out_sender.send(vec![2]).expect("Send failed");

    assert_eq!(Pause::Yield, run.resume());
    assert_eq!(Observed::Nothing, in_receiver.observe());
    assert_eq!(Pause::Finish(Ok(())), run.resume());
}

#[test]
fn run_disconnects_at_its_end() {
    let (_, mut run, (mut in_receiver, mut out_sender)) = start(sending(&[1]));

    assert_eq!(Pause::Yield, run.resume());
    assert!(run.handles().is_some());
    assert_eq!(Pause::Finish(Ok(())), run.resume());

    assert_eq!(Observed::Message(Ok(vec![1])), in_receiver.observe());
    assert_eq!(Observed::Closed, in_receiver.observe());
    assert_eq!(Err(vec![2]), out_sender.send(vec![2]));
    assert!(run.handles().is_none());
    assert_eq!(Pause::Finish(Ok(())), run.resume());
}

#[test]
fn run_disconnects_where_the_behaviour_fails() {
    let (_, mut run, (mut in_receiver, mut out_sender)) = start(receive(|_| true));

    assert_eq!(Pause::Yield, run.resume());
    assert_eq!(Pause::Finish(Err(Failure::NoMessage)), run.resume());

    assert_eq!(Observed::Closed, in_receiver.observe());
    assert_eq!(Err(vec![2]), out_sender.send(vec![2]));
    assert_eq!(Pause::Finish(Err(Failure::NoMessage)), run.resume());
}

#[test]
fn run_lends_its_handles() {
    let (_, mut run, (mut in_receiver, mut out_sender)) = start(into_behaviour("step"));

    assert_eq!(Pause::Call("step"), run.resume());
    out_sender.send(vec![2]).expect("Send failed");
    let (in_sender, out_receiver) = run.handles().expect("No handles");
    in_sender.send(Ok(vec![1])).expect("Send failed");
    assert_eq!(Observed::Message(vec![2]), out_receiver.observe());

    assert_eq!(Observed::Message(Ok(vec![1])), in_receiver.observe());
    assert_eq!(Pause::Finish(Ok(())), run.resume());
}

#[test]
fn any_error_rejects() {
    assert_eq!(Ok(()), verdict::<SessionError>(Ok(()), Ok(())));
    assert_eq!(
        Err(Rejection::SessionError(SessionError::Broken)),
        verdict(Err(SessionError::Broken), Ok(()))
    );
    assert_eq!(
        Err(Rejection::BehaviourError(Failure::NoMessage)),
        verdict::<SessionError>(Ok(()), Err(Failure::NoMessage))
    );
    assert_eq!(
        Err(Rejection::SessionError(SessionError::Odd(1))),
        verdict(Err(SessionError::Odd(1)), Err(Failure::NoMessage))
    );
}

#[test]
fn failures_have_their_words() {
    assert_eq!("Send failed", Failure::SendFailed.message());
    assert_eq!("No message from session", Failure::NoMessage.message());
    assert_eq!("Session closed", Failure::SessionClosed.message());
    assert_eq!(
        "Unexpected message from session",
        Failure::UnexpectedMessage.message()
    );
    assert_eq!("Session still connected", Failure::StillConnected.message());
    assert_eq!("Behaviour panicked", Failure::Panicked.message());
    assert_eq!("Session returned error", Rejection::SessionError(1u8).message());
    assert_eq!(
        "Behaviour returned error",
        Rejection::<u8>::BehaviourError(Failure::NoMessage).message()
    );
}

#[test]
fn messages_arrive_as_sent() {
    let (mut sender, mut receiver) = channel(&Unread);
    for number in 0..3u8 {
        sender.send(vec![number]).expect("Send failed");
    }
    drop(sender);

    for number in 0..3u8 {
        assert_eq!(Observed::Message(vec![number]), receiver.observe());
    }
    assert_eq!(Observed::Closed, receiver.observe());
    assert_eq!(Observed::Closed, receiver.observe());
}

#[test]
fn poll_finds_what_observe_finds() {
    let mut context = Context::from_waker(noop_waker_ref());
    let (mut sender, mut receiver) = channel(&Unread);

    assert_eq!(Observed::Nothing, receiver.poll(&mut context));
    sender.send(4u8).expect("Send failed");
    assert_eq!(Observed::Message(4u8), receiver.poll(&mut context));
    drop(sender);
    assert_eq!(Observed::Closed, receiver.poll(&mut context));
}

#[test]
fn handles_keep_their_channel() {
    let (sender, mut receiver) = channel(&Unread);
    sender.into_handle().send(4u8).expect("Send failed");
    assert_eq!(Observed::Message(4u8), receiver.observe());

    let (mut sender, receiver) = channel(&Unread);
    sender.send(5u8).expect("Send failed");
    assert_eq!(Ok(5u8), receiver.into_handle().try_recv());
}

#[test]
fn hanging_up_ends_the_messages() {
    let (mut sender, mut receiver) = channel(&Unread);
    sender.send(vec![1u8]).expect("Send failed");
    sender.send(vec![2]).expect("Send failed");
    assert_eq!(Observed::Message(vec![1]), receiver.observe());

    let _ = sender.hang_up();

    assert_eq!(Observed::Message(vec![2]), receiver.observe());
    assert_eq!(Observed::Closed, receiver.observe());
    assert_eq!(Observed::Closed, receiver.observe());
}

#[test]
fn hanging_up_without_a_message_leaves_none() {
    let (sender, mut receiver) = channel::<u8, Unread>(&Unread);
    assert_eq!(Observed::Nothing, receiver.observe());

    let _ = sender.hang_up();

    assert_eq!(Observed::Closed, receiver.observe());
}

#[test]
fn sends_come_out_in_order() {
    let mut ends = ends();
    for length in 0..4u8 {
        let data = Even(vec![length; length.into()]);
        assert_eq!(Ok(()), send_data(&mut ends.in_sender, data));
    }
    let Ends { in_sender, mut in_receiver, .. } = ends;
    let _ = in_sender.hang_up();

    assert_eq!(Observed::Message(Ok(vec![])), in_receiver.observe());
    assert_eq!(Observed::Message(Err(SessionError::Odd(1))), in_receiver.observe());
    assert_eq!(Observed::Message(Ok(vec![2, 2])), in_receiver.observe());
    assert_eq!(Observed::Message(Err(SessionError::Odd(3))), in_receiver.observe());
    assert_eq!(Observed::Closed, in_receiver.observe());
}

#[test]
fn receives_meet_the_stream() {
    let mut ends = ends();
    for number in 0..3u8 {
        ends.out_sender.send(vec![number]).expect("Send failed");
    }

    for number in 0..3u8 {
        let matches = move |bytes: Vec<u8>| bytes == vec![number];
        assert_eq!(Ok(()), assert_receive(&mut ends.out_receiver, matches));
    }
    assert_eq!(
        Err(Failure::NoMessage),
        assert_receive(&mut ends.out_receiver, |_| true)
    );
    ends.out_sender.send(vec![3]).expect("Send failed");
    assert_eq!(
        Ok(()),
        assert_receive(&mut ends.out_receiver, |bytes| bytes == vec![3])
    );
}

#[test]
fn rejected_message_is_taken() {
    let mut ends = ends();
    ends.out_sender.send(vec![1]).expect("Send failed");
    ends.out_sender.send(vec![2]).expect("Send failed");

    assert_eq!(
        Err(Failure::UnexpectedMessage),
        assert_receive(&mut ends.out_receiver, |_| false)
    );
    assert_eq!(
        Ok(()),
        assert_receive(&mut ends.out_receiver, |bytes| bytes == vec![2])
    );
}

#[test]
fn chain_adds_up() {
    let mut apart = ends();
    let mut chained = ends();
    for ends in [&mut apart, &mut chained] {
        ends.out_sender.send(vec![8]).expect("Send failed");
        ends.out_sender.send(vec![9]).expect("Send failed");
    }
    let first = || sending(&[1]).then(receive(|bytes| bytes == vec![8]));
    let second = || receive(|bytes| bytes == vec![9]).then(sending(&[2]));

    let (mut pauses, outcome) = play(first(), &mut apart);
    assert_eq!(Ok(()), outcome);
    let (later, outcome) = play(second(), &mut apart);
    pauses.extend(later);
    let played = play(first().then(second()), &mut chained);

    assert_eq!((pauses, outcome), played);
    assert_eq!(Ok(()), played.1);
    for ends in [&mut apart, &mut chained] {
        assert_eq!(Observed::Message(Ok(vec![1])), ends.in_receiver.observe());
        assert_eq!(Observed::Message(Ok(vec![2])), ends.in_receiver.observe());
        assert_eq!(Observed::Nothing, ends.in_receiver.observe());
        assert_eq!(Observed::Nothing, ends.out_receiver.observe());
    }
}

#[test]
fn idle_step_is_neutral() {
    let mut front = ends();
    let mut behind = ends();

    let in_front = play(into_behaviour("idle").then(sending(&[1])), &mut front);
    let from_behind = play(sending(&[1]).then(into_behaviour("idle")), &mut behind);

    assert_eq!((vec![Pause::Call("idle"), Pause::Yield], Ok(())), in_front);
    assert_eq!((vec![Pause::Yield, Pause::Call("idle")], Ok(())), from_behind);
    for ends in [&mut front, &mut behind] {
        assert_eq!(Observed::Message(Ok(vec![1])), ends.in_receiver.observe());
        assert_eq!(Observed::Nothing, ends.in_receiver.observe());
    }
}

#[test]
fn idle_step_behind_a_failure_is_not_reached() {
    let mut ends = ends();

    let played = play(receive(|_| true).then(into_behaviour("idle")), &mut ends);

    assert_eq!((vec![Pause::Yield], Err(Failure::NoMessage)), played);
}

#[test]
fn resuming_makes_a_run() {
    let mut ends = ends();
    let mut behaviour = sending(&[1]).then(into_behaviour("step")).then(sleep_in_pause(4));
    let mut resume = || behaviour.resume(&mut ends.in_sender, &mut ends.out_receiver);

    assert_eq!(Pause::Yield, resume());
    assert_eq!(Pause::Call("step"), resume());
    assert_eq!(Pause::FreezeClock, resume());
    assert_eq!(Pause::Sleep(4), resume());
    assert_eq!(Pause::ThawClock, resume());
    assert_eq!(Pause::Finish(Ok(())), resume());
    assert_eq!(Observed::Message(Ok(vec![1])), ends.in_receiver.observe());
}

#[test]
fn runs_are_bounded() {
    let mut idle = ends();
    assert_eq!(1, play(sending(&[1]), &mut idle).0.len());
    assert_eq!(1, play(into_behaviour("step"), &mut idle).0.len());
    assert_eq!(1, play(receive(|_| true), &mut idle).0.len());
    assert_eq!(3, play(sleep_in_pause(1), &mut idle).0.len());
    assert_eq!(3, play(wait_for_disconnect(), &mut idle).0.len());

    let mut chained = ends();
    chained.out_sender.send(vec![1]).expect("Send failed");
    let chain = sending(&[1])
        .then(into_behaviour("step"))
        .then(receive(|_| true))
        .then(sleep_in_pause(1));
    assert_eq!(6, play(chain, &mut chained).0.len());
}

#[test]
fn readings_tell_messages_apart() {
    let messages = AsMessage { errors: AsBytes };
    let kinds = AsMessage { errors: Unread };

    assert_eq!(vec![5, 6], AsBytes.read(&vec![5, 6]));
    assert_eq!(Vec::<u8>::new(), Unread.read(&SessionError::Broken));
    assert_eq!(vec![5, 6, 1], messages.read(&Ok(vec![5, 6])));
    assert_eq!(vec![1], messages.read(&Ok(vec![])));
    assert_eq!(vec![5, 6, 0], messages.read(&Err(vec![5, 6])));
    assert_eq!(vec![5, 1], kinds.read(&InMessage::<SessionError>::Ok(vec![5])));
    assert_eq!(vec![0], kinds.read(&Err(SessionError::Odd(3))));
}

#[test]
fn session_receives_what_was_sent() {
    let mut kept = None;
    let (_, mut run) = assert_behaviour_reading(
        |in_receiver: InReceiver<Vec<u8>>, out_sender| {
            kept = Some((in_receiver, out_sender));
            ready(Ok(()))
        },
        into_behaviour::<Vec<u8>, Call>("step"),
        AsBytes,
    );
    let (mut in_receiver, _out_sender) = kept.expect("The factory was not called");

    assert_eq!(Pause::Call("step"), run.resume());
    let (in_sender, _) = run.handles().expect("No handles");
    for message in [Ok(vec![1]), Err(vec![2, 3]), Ok(vec![])] {
        in_sender.send(message).expect("Send failed");
    }
    assert_eq!(Pause::Finish(Ok(())), run.resume());

    for message in [Ok(vec![1]), Err(vec![2, 3]), Ok(vec![])] {
        assert_eq!(Observed::Message(message), in_receiver.observe());
    }
    assert_eq!(Observed::Closed, in_receiver.observe());
}

#[test]
fn bytes_convert_to_themselves() {
    let none: InMessage<SessionError> = convert(Vec::<u8>::new());
    let some: InMessage<SessionError> = convert(vec![0u8, 255]);

    assert_eq!(Ok(vec![]), none);
    assert_eq!(Ok(vec![0, 255]), some);
}

#[test]
fn text_converts_to_utf8() {
    let message: InMessage<SessionError> = convert("a\u{e9}\u{20ac}".to_owned());

    assert_eq!(Ok(vec![0x61, 0xc3, 0xa9, 0xe2, 0x82, 0xac]), message);
}

#[test]
fn predicate_is_not_asked_where_no_message_is() {
    let never = |_: Vec<u8>| -> bool { panic!("Asked") };

    assert_eq!(Err(Failure::NoMessage), check_message(Observed::Nothing, never));
    assert_eq!(Err(Failure::SessionClosed), check_message(Observed::Closed, never));
}
