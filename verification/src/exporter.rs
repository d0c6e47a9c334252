//! What the metrics endpoint answers to a request: always a registry to
//! expose, whether the scrape behind it succeeded or not.

use crate::registry::{new_registry, registry_families};
use vstd::prelude::*;

verus! {

/// How a request for the metrics ended, as the request counter labels it.
#[derive(Clone, Copy, Debug, PartialEq, Eq, Structural)]
pub enum RequestStatus {
    Success,
    Error,
}

impl RequestStatus {
    /// The value of the `status` label.
    pub open spec fn label_text(self) -> Seq<char> {
        match self {
            RequestStatus::Success => "success"@,
            RequestStatus::Error => "error"@,
        }
    }

    /// The value of the `status` label.
    pub fn label(&self) -> (label: &'static str)
        ensures
            label@ == self.label_text(),
    {
        match self {
            RequestStatus::Success => "success",
            RequestStatus::Error => "error",
        }
    }
}

/// The answer to one request for the metrics.
pub struct ScrapeReply<E> {
    /// The status to count the request under.
    pub status: RequestStatus,
    /// The registry to expose beside the metrics of the process.
    pub registry: prometheus::Registry,
    /// The error of a scrape that failed, for the caller to log.
    pub error: Option<E>,
}

/// Decides the answer to a request from the result of its scrape. A scrape
/// that succeeded is answered with its registry and counted as a success. One
/// that failed is answered with a registry that holds nothing, counted as an
/// error, and its error is handed on: the endpoint answers either way.
pub fn reply_to<E>(scraped: Result<prometheus::Registry, E>) -> (reply: ScrapeReply<E>)
    ensures
        match scraped {
            Ok(registry) => reply.status == RequestStatus::Success && reply.registry == registry
                && reply.error is None,
            Err(error) => reply.status == RequestStatus::Error && registry_families(reply.registry)
                =~= Map::empty() && reply.error == Some(error),
        },
{
    match scraped {
        Ok(registry) => ScrapeReply { status: RequestStatus::Success, registry, error: None },
        Err(error) => ScrapeReply {
            status: RequestStatus::Error,
            registry: new_registry(),
            error: Some(error),
        },
    }
}

} // verus!
