//! Peer-store scoring configuration and status values.

use vstd::prelude::*;

verus! {

/// Alias score
pub type Score = i32;

/// PeerStore Scoring configuration
#[derive(Copy, Clone, Debug)]
pub struct PeerScoreConfig {
    /// Default score
    pub default_score: Score,
    /// Ban score
    pub ban_score: Score,
    /// Ban time
    pub ban_timeout_ms: u64,
}

impl Default for PeerScoreConfig {
    /// One day of ban timeout, scores as the network layer expects them.
    fn default() -> (r: Self)
        ensures
            r.default_score == 100,
            r.ban_score == 40,
            r.ban_timeout_ms == 24 * 3600 * 1000,
    {
        PeerScoreConfig {
            default_score: 100,
            ban_score: 40,
            ban_timeout_ms: 24 * 3600 * 1000, // 1 day
        }
    }
}

/// Peer Status
#[derive(Debug, Copy, Clone, Eq, PartialEq, Structural)]
pub enum Status {
    /// Connected
    Connected,
    /// The peer is disconnected
    Disconnected,
}

/// Report result
#[derive(Debug, Copy, Clone, Eq, PartialEq, Structural)]
pub enum ReportResult {
    /// The report was accepted and the peer stays
    Accepted,
    /// The peer is banned
    Banned,
}

impl ReportResult {
    /// Whether ban
    pub fn is_banned(self) -> (r: bool)
        ensures
            r == (self == ReportResult::Banned),
    {
        self == ReportResult::Banned
    }

    /// Whether ok
    pub fn is_ok(self) -> (r: bool)
        ensures
            r == (self == ReportResult::Accepted),
    {
        self == ReportResult::Accepted
    }
}

} // verus!
