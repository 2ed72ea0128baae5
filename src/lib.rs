use vstd::prelude::*;

pub mod ranking;
pub mod usage;
pub mod host;
