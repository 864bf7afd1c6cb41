//! The state of the service itself.

use vstd::prelude::*;
use crate::client::{ClientBuilder, Request, RequestView};

verus! {

/// The path of the state of the service.
pub const STATUS_ENDPOINT: &'static str = "/status";

impl ClientBuilder {
    /// The request for the state of the service.
    pub open spec fn spec_api_status_request(&self) -> RequestView {
        RequestView { url: self.spec_base_url() + STATUS_ENDPOINT@, query: Seq::empty() }
    }

    /// The request for the state of the service. It has no parameters.
    pub fn api_status_request(&self) -> (request: Request)
        ensures
            request@ == self.spec_api_status_request(),
    {
        Request::new(self.configured_base_url(), STATUS_ENDPOINT)
    }
}

} // verus!
