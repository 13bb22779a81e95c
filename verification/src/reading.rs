//! What can be read off a message, and of what a channel takes.

use crate::channel::InMessage;
use vstd::prelude::*;

verus! {

/// A way to read values of type `T`. As `read` is executable, a reading depends on nothing in a
/// value that is there for proofs only.
pub trait Reads<T> {
    /// What is read off `value`.
    spec fn reads(&self, value: T) -> Seq<u8>;

    /// Reads `value`.
    fn read(&self, value: &T) -> (bytes: Vec<u8>)
        ensures
            bytes@ == self.reads(*value),
    ;
}

/// Reads nothing.
#[derive(Debug, Clone, Copy, PartialEq, Eq)]
pub struct Unread;

impl<T> Reads<T> for Unread {
    open spec fn reads(&self, value: T) -> Seq<u8> {
        Seq::empty()
    }

    fn read(&self, _value: &T) -> (bytes: Vec<u8>)
        ensures
            bytes@.len() == 0,
    {
        Vec::new()
    }
}

/// Reads bytes as they are.
#[derive(Debug, Clone, Copy, PartialEq, Eq)]
pub struct AsBytes;

impl Reads<Vec<u8>> for AsBytes {
    open spec fn reads(&self, value: Vec<u8>) -> Seq<u8> {
        value@
    }

    fn read(&self, value: &Vec<u8>) -> (bytes: Vec<u8>)
        ensures
            bytes@ == value@,
    {
        let bytes = value.clone();
        assert(bytes@ =~= value@);
        bytes
    }
}

/// Stands behind the bytes of a message.
pub const BYTES: u8 = 1;

/// Stands behind what is read off an error.
pub const ERROR: u8 = 0;

/// Reads whether a message is bytes or an error, the bytes as they are, and an error as `errors`
/// reads it.
#[derive(Debug, PartialEq, Eq)]
pub struct AsMessage<R> {
    /// How errors are read.
    pub errors: R,
}

impl<E, R: Reads<E>> Reads<InMessage<E>> for AsMessage<R> {
    open spec fn reads(&self, value: InMessage<E>) -> Seq<u8> {
        match value {
            Ok(bytes) => bytes@.push(BYTES),
            Err(error) => self.errors.reads(error).push(ERROR),
        }
    }

    fn read(&self, value: &InMessage<E>) -> (bytes: Vec<u8>)
        ensures
            *value is Ok ==> bytes@ == (*value)->Ok_0@.push(1u8),
            *value is Err ==> bytes@ == self.errors.reads((*value)->Err_0).push(0u8),
    {
        match value {
            Ok(bytes) => {
                let mut read = AsBytes.read(bytes);
                read.push(BYTES);
                read
            },
            Err(error) => {
                let mut read = self.errors.read(error);
                read.push(ERROR);
                read
            },
        }
    }
}

/// What a channel takes over its life, in order, seen with hindsight: of each message, what is
/// read off it.
#[verifier::reject_recursive_types(T)]
pub struct Stream<T> {
    /// How messages are read.
    pub reading: spec_fn(T) -> Seq<u8>,
    /// What was read off each message that the channel takes, oldest first.
    pub taken: Seq<Seq<u8>>,
}

impl<T> Stream<T> {
    /// What is read off each of `messages`.
    pub open spec fn read(self, messages: Seq<T>) -> Seq<Seq<u8>> {
        Seq::new(messages.len(), |i: int| (self.reading)(messages[i]))
    }

    /// The two read the same.
    pub open spec fn alike(self, one: T, other: T) -> bool {
        (self.reading)(one) == (self.reading)(other)
    }

    /// Messages are read by `reader`.
    pub open spec fn read_by<R: Reads<T>>(self, reader: R) -> bool {
        forall|message: T| #[trigger] (self.reading)(message) == reader.reads(message)
    }
}

/// The two are the same message, as far as `errors` tells errors apart: the same bytes, or errors
/// that read the same.
pub open spec fn same_message<E, R: Reads<E>>(
    errors: R,
    one: InMessage<E>,
    other: InMessage<E>,
) -> bool {
    match (one, other) {
        (Ok(bytes), Ok(others)) => bytes@ == others@,
        (Err(error), Err(another)) => errors.reads(error) == errors.reads(another),
        _ => false,
    }
}

/// Messages that read the same are the same, as far as `errors` tells errors apart.
pub proof fn alike_is_same<E, R: Reads<E>>(
    errors: R,
    stream: Stream<InMessage<E>>,
    one: InMessage<E>,
    other: InMessage<E>,
)
    requires
        stream.read_by(AsMessage { errors }),
    ensures
        stream.alike(one, other) <==> same_message(errors, one, other),
{
    let reader = AsMessage { errors };
    assert((stream.reading)(one) == reader.reads(one));
    assert((stream.reading)(other) == reader.reads(other));
    if stream.alike(one, other) {
        assert(reader.reads(one).drop_last() == reader.reads(other).drop_last());
        assert(reader.reads(one).last() == reader.reads(other).last());
        match one {
            Ok(bytes) => assert(reader.reads(one).drop_last() =~= bytes@),
            Err(error) => assert(reader.reads(one).drop_last() =~= errors.reads(error)),
        }
        match other {
            Ok(bytes) => assert(reader.reads(other).drop_last() =~= bytes@),
            Err(error) => assert(reader.reads(other).drop_last() =~= errors.reads(error)),
        }
    }
}

} // verus!
