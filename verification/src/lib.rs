//! Tests a session by playing its counterparty: a behaviour sends messages to the session and
//! checks what the session sends back.
//!
//! A session is a future that receives on one channel and sends on another (`session`). The
//! other ends of the two channels (`channel`) belong to a behaviour (`behaviour`), which is cut
//! into segments at the points where it has to wait; `steps` has the behaviours to begin with.
//! How both ended decides whether the session passes (`outcome`). The two ends of a channel agree
//! on what can be read off its messages (`reading`); `conversions` tells what bytes and text are
//! sent as. `laws` and `step_laws` state and prove what holds of whole runs, `segment_laws` what
//! holds of one segment, `stream_laws` what holds of a channel's messages, and `ledger_laws` what
//! holds of the handles and their ledgers.

pub mod behaviour;
pub mod channel;
pub mod conversions;
pub mod laws;
pub mod ledger_laws;
pub mod outcome;
pub mod reading;
pub mod segment_laws;
pub mod session;
pub mod step_laws;
pub mod steps;
pub mod stream_laws;

pub use behaviour::{BehaviourFunction, Chain, Chainable, Pause};
pub use channel::{
    channel, in_channel, out_channel, ErrorType, InMessage, InReceiver, InSender, Observed,
    OutReceiver, OutSender, Receiver, Sender,
};
pub use outcome::{verdict, Failure, Outcome, Rejection};
pub use reading::{AsBytes, AsMessage, Reads, Unread};
pub use session::{assert_behaviour, assert_behaviour_reading, Run, SessionFactory};
pub use steps::{
    assert_receive, into_behaviour, receive, send, send_data, sleep_in_pause, wait_for_disconnect,
};
