//! Chain storage engine for a proof-of-work blockchain node.
//!
//! The engine persists the canonical chain — headers, bodies, uncles,
//! proposals, per-block extensions, transaction indices, cell metadata,
//! the live cell set, and epoch state — in a columnar key-value model,
//! and exposes typed read and batched-write access to higher layers.

use vstd::prelude::*;

pub mod body;
pub mod bootstrap;
pub mod cache;
pub mod codec;
pub mod kv;
pub mod laws;
pub mod types;
pub mod model;
pub mod peer;
pub mod store;

verus! {

} // verus!
