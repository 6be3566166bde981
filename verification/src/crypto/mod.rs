//! Cryptographic primitives: digests, Merkle trees and signatures.

use vstd::prelude::*;

pub mod hash;
pub mod signing;
pub mod merkle;
