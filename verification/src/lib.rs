//! A multi-tier caching and binary-serialization pipeline that turns
//! columnar tile query results into packed byte buffers for a rendering
//! front-end.
//!
//! The tiers are a result cache keyed by exact query text, two single-slot
//! precomputed buffer caches, and a durable spatial chunk store; one codec
//! module defines the wire layouts they all share. Floating-point values
//! travel through every layer as opaque 32-bit IEEE-754 bit patterns: the
//! library moves, packs and decodes them but never does arithmetic on
//! them, so every buffer it emits is pinned bit for bit by the contracts.

use vstd::prelude::*;

pub mod chunks;
pub mod codec;
pub mod errors;
pub mod gpu;
pub mod pipeline;
pub mod raw;
pub mod result_cache;
pub mod scalar;
pub mod tiles;

verus! {

} // verus!
