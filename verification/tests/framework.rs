use std::convert::Infallible;
use std::future::poll_fn;
use std::sync::atomic::{AtomicBool, Ordering};
use std::sync::Arc;
use std::task::Poll;
use std::time::Duration;

use futures::future::{join, BoxFuture};
use futures::FutureExt;
use session_behaviour::{
    assert_behaviour, assert_receive, in_channel, into_behaviour, out_channel, receive, send,
    send_data, sleep_in_pause, verdict, wait_for_disconnect, BehaviourFunction, Chainable,
    ErrorType, Failure, InMessage, InReceiver, InSender, Observed, OutReceiver, OutSender, Outcome,
    Pause, Receiver, Rejection, Run, Unread,
};
use tokio::task::yield_now;

type Step<E> = Box<
    dyn for<'a> FnOnce(&'a mut InSender<E>, &'a mut OutReceiver) -> BoxFuture<'a, ()> + Send,
>;

fn step<E, F>(closure: F) -> Step<E>
where
    F: for<'a> FnOnce(&'a mut InSender<E>, &'a mut OutReceiver) -> BoxFuture<'a, ()>
        + Send
        + 'static,
{
    Box::new(closure)
}

fn block_on<F: std::future::Future>(future: F) -> F::Output {
    tokio::runtime::Builder::new_current_thread()
        .enable_time()
        .build()
        .expect("Runtime failed")
        .block_on(future)
}

async fn wait<C>(pause: Pause<C>) {
    match pause {
        Pause::Yield => yield_now().await,
        Pause::FreezeClock => tokio::time::pause(),
        Pause::Sleep(millis) => tokio::time::sleep(Duration::from_millis(millis)).await,
        Pause::ThawClock => tokio::time::resume(),
        Pause::Call(_) | Pause::Finish(_) => {}
    }
}

async fn play<E: ErrorType, B: BehaviourFunction<E, Step<E>>>(
    mut behaviour: B,
    in_sender: &mut InSender<E>,
    out_receiver: &mut OutReceiver,
) -> Outcome {
    loop {
        match behaviour.resume(in_sender, out_receiver) {
            Pause::Call(closure) => closure(in_sender, out_receiver).await,
            Pause::Finish(outcome) => return outcome,
            pause => wait(pause).await,
        }
    }
}

async fn drive<E: ErrorType, B: BehaviourFunction<E, Step<E>>>(
    mut run: Run<E, Step<E>, B>,
) -> Outcome {
    loop {
        match run.resume() {
            Pause::Call(closure) => {
                let (in_sender, out_receiver) = run.handles().expect("No handles");
                closure(in_sender, out_receiver).await
            }
            Pause::Finish(outcome) => return outcome,
            pause => wait(pause).await,
        }
    }
}

async fn recv<T>(receiver: &mut Receiver<T>) -> Option<T> {
    poll_fn(|context| match receiver.poll(context) {
        Observed::Nothing => Poll::Pending,
        Observed::Closed => Poll::Ready(None),
        Observed::Message(message) => Poll::Ready(Some(message)),
    })
    .await
}

async fn test_session<E, F, B>(session_factory: F, behaviour: B) -> Result<(), Rejection<E>>
where
    E: ErrorType,
    F: FnOnce(InReceiver<E>, OutSender) -> BoxFuture<'static, Result<(), E>>,
    B: BehaviourFunction<E, Step<E>> + Send + 'static,
{
    let (session, run) = assert_behaviour(session_factory, behaviour);
    let task = tokio::task::spawn(drive(run));
    let (session, outcome) = join(session, task).await;
    verdict(session, outcome.unwrap_or(Err(Failure::Panicked)))
}

#[derive(Debug, PartialEq, Eq)]
struct TestError;

impl From<Infallible> for TestError {
    fn from(_: Infallible) -> Self {
        TestError
    }
}

struct TestData;

#[derive(Debug, PartialEq, Eq)]
struct TestError2;

impl From<TestError2> for TestError {
    fn from(_: TestError2) -> Self {
        TestError
    }
}

impl TryFrom<TestData> for Vec<u8> {
    type Error = TestError2;

    fn try_from(_: TestData) -> Result<Vec<u8>, TestError2> {
        Err(TestError2)
    }
}

fn text<E: std::fmt::Debug>(found: Observed<InMessage<E>>) -> String {
    match found {
        Observed::Message(message) => {
            String::from_utf8(message.expect("recv failed")).expect("Parse failed")
        }
        other => panic!("{:?}", other),
    }
}

#[test]
fn chaining_works() {
    block_on(async {
        let (mut tx, mut rx) = in_channel::<(), Unread>(Unread);
        let (_, mut out_rx) = out_channel();

        let behaviour_a = into_behaviour(step(|sender: &mut InSender<()>, _: &mut OutReceiver| {
            async move {
                sender.send(Ok(b"foo".to_vec())).expect("Send failed");
            }
            .boxed()
        }));
        let behaviour_b = into_behaviour(step(|sender: &mut InSender<()>, _: &mut OutReceiver| {
            async move {
                sender.send(Ok(b"bar".to_vec())).expect("Send failed");
            }
            .boxed()
        }));

        // a then b...
        let outcome = play(behaviour_a.then(behaviour_b), &mut tx, &mut out_rx).await;
        assert_eq!(Ok(()), outcome);

        // ... then close the channel
        drop(tx);

        assert_eq!("foo", text(rx.observe()));
        assert_eq!("bar", text(rx.observe()));
        assert_eq!(Observed::Closed, rx.observe());
    });
}

#[test]
fn send_works() {
    let (mut tx, mut rx) = in_channel::<TestError, Unread>(Unread);
    let (_, mut out_rx) = out_channel();

    let mut behaviour = send::<String, TestError, Step<TestError>>("Hello".to_owned());

    assert!(matches!(behaviour.resume(&mut tx, &mut out_rx), Pause::Yield));

    // ... then close the channel
    drop(tx);

    assert_eq!("Hello", text(rx.observe()));
    assert_eq!(Observed::Closed, rx.observe());
}

#[test]
fn send_handles_conversion_error() {
    let (mut tx, mut rx) = in_channel::<TestError, Unread>(Unread);
    let (_, mut out_rx) = out_channel();

    let mut behaviour = send::<TestData, TestError, Step<TestError>>(TestData);

    assert!(matches!(behaviour.resume(&mut tx, &mut out_rx), Pause::Yield));

    // ... then close the channel
    drop(tx);

    assert_eq!(Observed::Message(Err(TestError)), rx.observe());
    assert_eq!(Observed::Closed, rx.observe());
}

#[test]
fn send_yields() {
    block_on(async {
        let (mut tx, mut rx) = in_channel::<TestError, Unread>(Unread);
        let (_, mut out_rx) = out_channel();

        let handle = tokio::task::spawn(async move {
            let first = recv(&mut rx).await;

            assert_eq!(
                "Hello",
                String::from_utf8(first.unwrap().expect("recv failed")).expect("Parse failed"),
            );

            // The first send yielded, so the second message has not been sent yet
            assert_eq!(Observed::Nothing, rx.observe());

            let second = recv(&mut rx).await;

            assert_eq!(
                "world",
                String::from_utf8(second.unwrap().expect("recv failed")).expect("Parse failed"),
            );
        });

        let behaviour = send::<String, TestError, Step<TestError>>("Hello".to_owned())
            .then(send::<String, TestError, Step<TestError>>("world".to_owned()));

        let x = join(handle, play(behaviour, &mut tx, &mut out_rx)).await;

        assert!(x.0.is_ok());
        assert_eq!(Ok(()), x.1);
    });
}

#[test]
fn send_data_sends() {
    block_on(async {
        let (mut tx, mut rx) = in_channel::<TestError, Unread>(Unread);

        assert_eq!(Ok(()), send_data(&mut tx, b"1".to_vec()));

        assert_eq!(
            b"1".to_vec(),
            recv(&mut rx)
                .await
                .expect("Should be Some")
                .expect("Should be ok")
        );
    });
}

#[test]
fn test_expectations_executes_behaviour() {
    block_on(async {
        let called = Arc::new(AtomicBool::new(false));

        let session_factory = |_: InReceiver<TestError>, _: OutSender| async { Ok(()) }.boxed();
        let client_behaviour = into_behaviour(step({
            let called = called.clone();
            |_: &mut InSender<TestError>, _: &mut OutReceiver| {
                async move { called.store(true, Ordering::Release) }.boxed()
            }
        }));

        assert_eq!(Ok(()), test_session(session_factory, client_behaviour).await);

        assert_eq!(true, called.load(Ordering::Acquire));
    });
}

#[test]
fn test_expectations_starts_session() {
    block_on(async {
        let called = Arc::new(AtomicBool::new(false));

        let session_factory = {
            let called = called.clone();
            |_: InReceiver<TestError>, _: OutSender| {
                async move { Ok(called.store(true, Ordering::Release)) }.boxed()
            }
        };
        let client_behaviour = into_behaviour(step(|_: &mut InSender<TestError>, _| {
            async {}.boxed()
        }));

        assert_eq!(Ok(()), test_session(session_factory, client_behaviour).await);

        assert_eq!(true, called.load(Ordering::Acquire));
    });
}

#[test]
fn test_expectations_sends_in_to_session() {
    block_on(async {
        let session_factory = |mut receiver: InReceiver<TestError>, _: OutSender| {
            async move {
                match recv(&mut receiver).await {
                    Some(Ok(x)) if x == vec![42u8] => Ok(()),
                    _ => Err(TestError),
                }
            }
            .boxed()
        };
        let client_behaviour = into_behaviour(step(|in_sender: &mut InSender<TestError>, _| {
            async move {
                in_sender.send(Ok(vec![42u8])).expect("Send failed");
            }
            .boxed()
        }));

        assert_eq!(Ok(()), test_session(session_factory, client_behaviour).await);
    });
}

#[test]
fn test_expectations_receives_out_from_session() {
    block_on(async {
        let session_factory = |_, mut sender: OutSender| {
            async move { sender.send(vec![42u8]).map_err(|_| TestError) }.boxed()
        };
        let client_behaviour = into_behaviour(step(
            |_: &mut InSender<TestError>, out_receiver: &mut OutReceiver| {
                async move {
                    assert!(matches!(recv(out_receiver).await, Some(x) if x == vec![42u8]));
                }
                .boxed()
            },
        ));

        assert_eq!(Ok(()), test_session(session_factory, client_behaviour).await);
    });
}

#[test]
fn test_expectations_fails_if_error_in_session() {
    block_on(async {
        let session_factory = |_, _| async move { Err(TestError) }.boxed();
        let client_behaviour =
            into_behaviour(step(|_: &mut InSender<TestError>, _| async move {}.boxed()));

        assert_eq!(
            Err(Rejection::SessionError(TestError)),
            test_session(session_factory, client_behaviour).await
        );
    });
}

#[test]
fn test_expectations_fails_if_error_in_behaviour() {
    block_on(async {
        let session_factory = |_, _| async move { Ok(()) }.boxed();
        let client_behaviour = into_behaviour(step(|_: &mut InSender<TestError>, _| {
            async move {
                assert!(false);
            }
            .boxed()
        }));

        assert_eq!(
            Err(Rejection::BehaviourError(Failure::Panicked)),
            test_session(session_factory, client_behaviour).await
        );
    });
}

#[test]
fn test_expectations_succeeds_if_empty() {
    block_on(async {
        let session_factory = |_, _| async move { Ok(()) }.boxed();
        let client_behaviour =
            into_behaviour(step(|_: &mut InSender<TestError>, _| async move {}.boxed()));

        assert_eq!(Ok(()), test_session(session_factory, client_behaviour).await);
    });
}

#[test]
fn assert_receive_fails_if_no_message() {
    let (_, mut out_rx) = out_channel();

    let result = assert_receive(&mut out_rx, |_| true);

    assert!(result.is_err());
}

#[test]
fn assert_receive_succeeds_if_message_matches() {
    let (mut out_tx, mut out_rx) = out_channel();

    out_tx.send(vec![0u8]).expect("Should succeed");
    let result = assert_receive(&mut out_rx, |_| true);

    assert!(result.is_ok());
}

#[test]
fn assert_receive_succeeds_if_session_closed() {
    let (mut out_tx, mut out_rx) = out_channel();

    out_tx.send(vec![0u8]).expect("Should succeed");
    out_rx.close();

    let result = assert_receive(&mut out_rx, |_| true);

    assert!(result.is_ok());

    let result = assert_receive(&mut out_rx, |_| true);
    assert!(result.is_err());
}

#[test]
fn assert_receive_fails_if_predicate_false() {
    let (mut out_tx, mut out_rx) = out_channel();

    out_tx.send(vec![0u8]).expect("Should succeed");

    let result = assert_receive(&mut out_rx, |_| false);

    assert!(result.is_err());
}

#[test]
fn assert_receive_passes_message_to_predicate() {
    let (mut out_tx, mut out_rx) = out_channel();

    out_tx.send(vec![0u8]).expect("Should succeed");

    let result = assert_receive(&mut out_rx, |data| data == vec![0u8]);

    assert!(result.is_ok());
}

#[test]
fn receive_succeeds_with_message() {
    block_on(async {
        let (mut tx, _) = in_channel(Unread);
        let (mut out_tx, mut out_rx) = out_channel();

        let behaviour = receive::<TestError, _, Step<TestError>>(|bytes| bytes == vec![42u8]);

        out_tx.send(vec![42u8]).expect("Send Failed");

        assert_eq!(Ok(()), play(behaviour, &mut tx, &mut out_rx).await);
    });
}

#[test]
fn receive_fails_with_incorrect_message() {
    block_on(async {
        let (mut tx, _) = in_channel(Unread);
        let (mut out_tx, mut out_rx) = out_channel();

        let behaviour = receive::<TestError, _, Step<TestError>>(|bytes| bytes == vec![43u8]);

        out_tx.send(vec![42u8]).expect("Send Failed");

        play(behaviour, &mut tx, &mut out_rx)
            .await
            .expect_err("Behaviour passed");
    });
}

#[test]
fn sleep_in_pause_passes_time() {
    block_on(async {
        let session_factory = |_, mut sender: OutSender| {
            async move {
                tokio::time::sleep(Duration::from_millis(2000)).await;
                sender.send(vec![1]).expect("Send failed");
                Ok(())
            }
            .boxed()
        };

        let client_behaviour = into_behaviour(step(
            |in_sender: &mut InSender<TestError>, out_receiver: &mut OutReceiver| {
                async move {
                    assert_eq!(Observed::Nothing, out_receiver.observe());
                    let slept = play(sleep_in_pause(3000), in_sender, out_receiver).await;
                    assert_eq!(Ok(()), slept);
                    assert_eq!(Ok(()), assert_receive(out_receiver, |bytes| bytes == vec![1]));
                }
                .boxed()
            },
        ));

        assert_eq!(Ok(()), test_session(session_factory, client_behaviour).await);
    });
}

#[test]
fn wait_for_disconnect_fails_if_not_disconnected() {
    block_on(async {
        let session_factory = |_, unused: OutSender| {
            async move {
                tokio::time::sleep(Duration::from_millis(5060)).await;
                drop(unused); // disconnects, but too late
                Ok(())
            }
            .boxed()
        };

        assert_eq!(
            Err(Rejection::BehaviourError(Failure::StillConnected)),
            test_session(session_factory, wait_for_disconnect::<TestError, _>()).await
        );
    });
}

#[test]
fn wait_for_disconnect_succeeds_if_disconnected() {
    block_on(async {
        let session_factory = |_, unused: OutSender| {
            async move {
                tokio::time::sleep(Duration::from_millis(5000)).await;
                drop(unused); // closes
                Ok(())
            }
            .boxed()
        };

        assert_eq!(
            Ok(()),
            test_session(session_factory, wait_for_disconnect::<TestError, _>()).await
        );
    });
}
