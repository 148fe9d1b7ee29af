//! Fixed configuration of the service.

use vstd::prelude::*;

verus! {

/// The human-readable labels of the four lines, in menu order.
pub const LINES: [&'static str; 4] = [
    "Heltermaa - Rohuküla",
    "Rohuküla - Heltermaa",
    "Kuivastu - Virtsu",
    "Virtsu - Kuivastu",
];

/// Seconds between two polls when no other interval is configured.
pub const TIMEOUT_BETWEEN_REQUESTS: u64 = 30;

/// Seconds between two refreshes of a progress display.
pub const TICK_TIMEOUT_SECONDS: u64 = 1;

} // verus!
