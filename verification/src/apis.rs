//! Identifiers for the media-management backends a request can be routed to.

use vstd::prelude::*;

verus! {

/// The two media-management services the assistant talks to.
#[derive(Clone, Copy, PartialEq, Eq, Structural, Debug)]
pub enum ArrService {
    Sonarr,
    Radarr,
}

impl ArrService {
    /// The lower-case service name, as it appears in configuration keys
    /// and request URLs.
    pub fn name(&self) -> (r: &'static str)
        ensures
            *self is Sonarr ==> r@ == "sonarr"@,
            *self is Radarr ==> r@ == "radarr"@,
    {
        match self {
            ArrService::Sonarr => "sonarr",
            ArrService::Radarr => "radarr",
        }
    }
}

} // verus!
