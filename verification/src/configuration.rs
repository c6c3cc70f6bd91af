use vstd::prelude::*;

verus! {

/// Shared, read-only settings for the API.
///
/// `C` is the connector capability: whatever value the surrounding transport
/// needs to carry a request to the server. The library stores it and hands it
/// back; it never looks inside.
pub struct Configuration<C> {
    /// Prefix of every request URL.
    pub base_path: String,
    /// Value for the `User-Agent` header, if the transport sends one.
    pub user_agent: Option<String>,
    /// Credential for the transport to attach, if the API wants one.
    pub api_key: Option<String>,
    /// The connector that executes requests.
    pub client: C,
}

} // verus!
