use vstd::prelude::*;

use crate::configuration::Configuration;
use vstd::string::StringExecFns;

verus! {

/// HTTP method of a request descriptor.
#[derive(Clone, Copy, Debug, PartialEq, Eq)]
pub enum Method {
    Get,
    Head,
    Post,
    Put,
    Delete,
    Options,
    Patch,
}

/// A request descriptor: everything the transport needs to issue one request.
///
/// The descriptor is plain data. Building one has no effect; only the
/// surrounding transport turns it into a network call.
pub struct Request {
    pub method: Method,
    pub path: String,
    pub query: Vec<(String, String)>,
    pub body: Option<Vec<u8>>,
}

impl Request {
    /// A fresh descriptor for `method` and `path`: no query parameters and no body.
    pub fn new(method: Method, path: String) -> (r: Request)
        ensures
            r.method == method,
            r.path@ == path@,
            r.query@.len() == 0,
            r.body is None,
    {
        Request { method, path, query: Vec::new(), body: None }
    }
}

/// The absolute URL for `req` under `config`: the base path followed by the
/// request path.
pub fn request_url<C>(config: &Configuration<C>, req: &Request) -> (r: String)
    ensures
        r@ == config.base_path@ + req.path@,
{
    let mut url = String::from_str(config.base_path.as_str());
    url.append(req.path.as_str());
    url
}

} // verus!
