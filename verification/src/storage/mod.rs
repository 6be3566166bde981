//! Storage layer: chunk, key and bundle stores over an embedded key/value database.

use vstd::prelude::*;

pub mod kv;
pub mod chunks;
pub mod keys;
pub mod bundles;

pub use chunks::ChunkStore;
pub use keys::KeyStore;
pub use bundles::BundleStore;
