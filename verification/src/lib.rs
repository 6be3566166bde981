//! Content-addressed publishing and synchronization engine for static sites.

use vstd::prelude::*;

pub mod bytes;
pub mod clock;
pub mod codec;
pub mod content;
pub mod collections;
pub mod crypto;
pub mod gateway;
pub mod network;
pub mod publisher;
pub mod status;
pub mod storage;
pub mod text;
pub mod types;
