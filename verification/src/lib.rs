//! Verified core of a dungeon-run lookup client: a fetch-transform-cache
//! pipeline for a single run id.
//!
//! The library owns the logic worth specifying: normalizing a fetched
//! roster into a canonical order, rendering the fixed-format text report,
//! encoding and decoding the persisted cache file, keeping the cache's
//! id-uniqueness invariant, and deciding the steps of a lookup. The thin
//! shell around it (argument handling, the HTTP call, file reads and
//! writes) lives outside and hands the library plain values.

pub mod codec;
pub mod lookup;
pub mod numtext;
pub mod render;
pub mod response;
pub mod roster;
pub mod store;
pub mod summary;
pub mod text;
