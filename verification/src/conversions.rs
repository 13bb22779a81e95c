//! Conversions to bytes that the standard library comes with, and what they send.

use crate::channel::{ErrorType, InMessage};
use crate::steps;
use core::convert::Infallible;
use vstd::prelude::*;

verus! {

/// The standard library's conversion of a value to its own type, which returns the value
/// unchanged.
pub assume_specification<X>[ <X as core::convert::From<X>>::from ](t: X) -> (same: X)
    ensures
        same == t,
;

/// The standard library's conversion of a `String` to the bytes that it holds, which are its
/// characters in UTF-8.
pub assume_specification[ <Vec<u8> as core::convert::From<String>>::from ](
    string: String,
) -> (bytes: Vec<u8>)
    ensures
        bytes@ == vstd::utf8::encode_utf8(string@),
;

/// Bytes are sent as they are.
pub proof fn bytes_convert_to_themselves<E: ErrorType + From<Infallible>>(
    data: Vec<u8>,
    message: InMessage<E>,
)
    requires
        steps::converts_to(data, message),
    ensures
        message == InMessage::<E>::Ok(data),
{
}

/// Text is sent as its characters in UTF-8.
pub proof fn text_converts_to_utf8<E: ErrorType + From<Infallible>>(
    data: String,
    message: InMessage<E>,
)
    requires
        steps::converts_to(data, message),
    ensures
        message is Ok,
        message->Ok_0@ == vstd::utf8::encode_utf8(data@),
{
}

} // verus!
