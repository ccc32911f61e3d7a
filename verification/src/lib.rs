//! Node agent library for passive workload observation.
//!
//! The library holds the verified core of a per-node agent that watches the
//! workloads scheduled on its node, correlates in-kernel network and syscall
//! events with workload identities, deduplicates them, and prepares the
//! records that are posted to a central collector.  All I/O (the watch
//! streams, the kernel probes, the HTTP client) lives outside this crate;
//! the logic that decides what is recorded and emitted lives here.

pub mod collector;
pub mod container;
pub mod events;
pub mod ext;
pub mod model;
pub mod network;
pub mod registry;
pub mod syscall;
pub mod text;
pub mod trace;
pub mod watch;

use vstd::prelude::*;

verus! {

/// Errors surfaced by the agent's processing steps.
#[derive(Debug, Clone)]
pub enum Error {
    /// A collector call failed; the message describes the transport failure.
    ApiError(String),
    /// A document could not be framed.
    IllegalDocument,
    /// Any other failure, described by its message.
    CustomError(String),
}

impl Error {
    /// A stable lowercase label for metrics, one per variant.
    pub fn metric_label(&self) -> (r: String)
        ensures
            r@ == self.spec_metric_label(),
    {
        match self {
            Error::ApiError(_) => String::from_str("apierror"),
            Error::IllegalDocument => String::from_str("illegaldocument"),
            Error::CustomError(_) => String::from_str("customerror"),
        }
    }

    pub open spec fn spec_metric_label(&self) -> Seq<char> {
        match self {
            Error::ApiError(_) => "apierror"@,
            Error::IllegalDocument => "illegaldocument"@,
            Error::CustomError(_) => "customerror"@,
        }
    }
}

} // verus!
