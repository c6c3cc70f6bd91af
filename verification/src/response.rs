use vstd::prelude::*;

use crate::codec::{decode_fruit, fruit_doc, quote_free};
use crate::models::Fruit;

verus! {

/// Why the fruit operation failed.
#[derive(Clone, Debug, PartialEq, Eq)]
pub enum ApiError {
    /// The transport delivered no response; the message is the transport's own.
    Transport(String),
    /// The server answered with a status outside the success range.
    Status(u16),
    /// The body of a successful response was no fruit document.
    Decode,
}

/// What the transport hands back for one issued request: either a full
/// response, or a failure of its own (the connection broke, the body never
/// arrived, and so on).
pub enum HttpOutcome {
    Response { status: u16, body: Vec<u8> },
    Failure { message: String },
}

/// A status in the success range.
pub open spec fn success_status(status: u16) -> bool {
    200 <= status < 300
}

/// Turns the transport's outcome for the fruit request into the operation's
/// result.
///
/// A transport failure and a status outside the success range each become the
/// matching error, untouched. A successful response resolves to the fruit its
/// body spells, and to a decode error when the body spells none; it never
/// resolves to a value its body does not carry.
pub fn resolve_fruit_response(outcome: HttpOutcome) -> (r: Result<Fruit, ApiError>)
    ensures
        outcome matches HttpOutcome::Failure { message } ==> r == Err::<Fruit, ApiError>(
            ApiError::Transport(message),
        ),
        outcome matches HttpOutcome::Response { status, body } ==> !success_status(status) ==> r
            == Err::<Fruit, ApiError>(ApiError::Status(status)),
        outcome matches HttpOutcome::Response { status, body } ==> success_status(status)
            ==> match r {
            Ok(f) => quote_free(f.name@) && quote_free(f.color@) && body@ == fruit_doc(
                f.name@,
                f.color@,
            ),
            Err(e) => e == ApiError::Decode && (forall|n: Seq<u8>, c: Seq<u8>|
                quote_free(n) && quote_free(c) ==> body@ != fruit_doc(n, c)),
        },
        outcome matches HttpOutcome::Response { status, body } ==> success_status(status)
            ==> forall|n: Seq<u8>, c: Seq<u8>|
            quote_free(n) && quote_free(c) && body@ == fruit_doc(n, c) ==> (r matches Ok(f)
                && f.name@ == n && f.color@ == c),
{
    match outcome {
        HttpOutcome::Failure { message } => Err(ApiError::Transport(message)),
        HttpOutcome::Response { status, body } => {
            if status < 200 || status >= 300 {
                Err(ApiError::Status(status))
            } else {
                match decode_fruit(&body) {
                    Some(f) => Ok(f),
                    None => Err(ApiError::Decode),
                }
            }
        },
    }
}

} // verus!
