//! Verified voting core of a chained-HotStuff replica with reputation-driven view jumps.

use vstd::prelude::*;

pub mod buffer;
pub mod laws;
pub mod leadership;
pub mod protocol;
pub mod tally;
pub mod types;
pub mod voter_set;
pub mod voter_state;
