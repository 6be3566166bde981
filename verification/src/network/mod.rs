//! The peer-to-peer layer: wire protocol, node state machine, replication
//! policy and peer health.

use vstd::prelude::*;

pub mod protocol;
pub mod replication;
pub mod health;
pub mod bootstrap;
pub mod node;
pub mod swarm;
pub mod lifecycle;
