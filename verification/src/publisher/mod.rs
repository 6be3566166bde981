//! Publishing: files are compressed, chunked and listed in a manifest,
//! and the manifest is signed into a bundle.

use vstd::prelude::*;

pub mod order;
pub mod files;
pub mod bundle;
pub mod laws;

pub use bundle::{PublishOptions, PublishResult, Publisher};
pub use files::{PublishError, SourceFile};
