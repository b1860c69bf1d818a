//! The capability every pollable information service offers.
//!
//! A service has a stable name, which results are filed under, and a polling
//! interval.  The poll itself reaches over the network, so the embedder
//! drives it: it asks the service's source at the service's rate and files
//! what comes back under the service's name.

use vstd::prelude::*;

verus! {

/// A periodically polled information source.
pub trait Service {
    /// The stable name results of this service are filed under.
    fn get_service_name(&self) -> String;

    /// Seconds between polls of this service.
    fn get_polling_rate(&self) -> u64;
}

} // verus!
