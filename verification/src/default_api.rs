use vstd::prelude::*;

use std::sync::Arc;

use crate::configuration::Configuration;
use crate::request::{Method, Request};
use vstd::string::StringExecFns;

verus! {

/// The one request the fruit operation may issue: a GET on `/example`, with
/// no query parameters and no body.
pub open spec fn is_fruit_request(req: Request) -> bool {
    &&& req.method == Method::Get
    &&& req.path@ == "/example"@
    &&& req.query@.len() == 0
    &&& req.body is None
}

/// The operations of the API, behind a trait so that callers can hold any
/// client that provides them.
pub trait DefaultApi {
    /// The request that the fruit operation issues. Executing the descriptor
    /// and interpreting the outcome belong to the transport and to
    /// [`crate::response::resolve_fruit_response`].
    fn get_fruit(&self) -> (req: Request)
        ensures
            is_fruit_request(req),
    ;
}

/// Concurrent calls of the fruit operation cannot interfere: the operation
/// writes nothing, and any two descriptors that meet its contract are
/// interchangeable, whichever client produced them and however the calls
/// overlapped.
pub proof fn lemma_fruit_requests_agree(r1: Request, r2: Request)
    requires
        is_fruit_request(r1),
        is_fruit_request(r2),
    ensures
        r1.method == r2.method,
        r1.path@ == r2.path@,
        r1.query@ == r2.query@,
        r1.body is None && r2.body is None,
{
    assert(r1.query@ =~= r2.query@);
}

/// A client bound to one shared configuration.
///
/// The configuration is shared and read-only: the client never writes through
/// the handle, so any number of clients and in-flight operations may hold it
/// at once.
pub struct DefaultApiClient<C> {
    configuration: Arc<Configuration<C>>,
}

impl<C> DefaultApiClient<C> {
    /// The configuration this client was built over.
    pub closed spec fn config(&self) -> Configuration<C> {
        *self.configuration
    }

    pub fn new(configuration: Arc<Configuration<C>>) -> (r: DefaultApiClient<C>)
        ensures
            r.config() == *configuration,
    {
        DefaultApiClient { configuration }
    }

    /// The shared configuration handle, for the transport that executes
    /// this client's descriptors.
    pub fn configuration(&self) -> (r: &Arc<Configuration<C>>)
        ensures
            **r == self.config(),
    {
        &self.configuration
    }
}

impl<C> DefaultApi for DefaultApiClient<C> {
    fn get_fruit(&self) -> (req: Request) {
        Request::new(Method::Get, String::from_str("/example"))
    }
}

} // verus!
