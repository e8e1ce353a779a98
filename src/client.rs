//! Client-side settings.
use vstd::prelude::*;
use vstd::string::StringExecFns;

verus! {

/// Where a client finds the server.
pub struct ClientConfig {
    pub server_addr: String,
}

impl ClientConfig {
    /// Settings for the default server address, `:8085`; the path is not read.
    pub fn new(_path: String) -> (r: Box<ClientConfig>)
        ensures
            r.server_addr@ == ":8085"@,
    {
        Box::new(ClientConfig { server_addr: String::from_str(":8085") })
    }
}

/// A client handle.
pub struct ModelBoxClient {}

impl ModelBoxClient {
    /// A new client handle.
    pub fn new() -> (r: Self) {
        ModelBoxClient {}
    }
}

} // verus!
