//! Aggregation gateway core for a cursor-paginated game-statistics service.
//!
//! The library holds the logic of the gateway: translating relay-style
//! cursor pagination onto the upstream's offset windows, coalescing
//! per-player-per-match skill lookups into one upstream call per match,
//! driving the four-step credential exchange, and assembling rosters from
//! a match-stats response. The surrounding HTTP transport performs the
//! calls that these components plan.

pub mod auth;
pub mod cursor;
pub mod halo_requests;
pub mod loader;
pub mod pagination;
