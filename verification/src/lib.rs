//! Verified multi-source transit ingestion, normalization, caching and
//! fusion engine.
//!
//! The crate parses GTFS static tables delivered as zipped CSV archives,
//! normalizes operator-specific identifiers, caches the parsed tables with a
//! per-source expiry, matches real-time vehicle and trip-update events to
//! static stops and lines, and computes schedule-based predicted arrivals
//! honoring per-service calendars.

pub mod archive;
pub mod cache;
pub mod clock;
pub mod discovery;
pub mod fusion;
pub mod ids;
pub mod model;
pub mod rt;
pub mod schedule;
pub mod serve;
pub mod sortutil;
pub mod strutil;
pub mod tables;
