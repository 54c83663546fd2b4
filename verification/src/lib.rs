//! Transport bookkeeping for a JACK timebase master that conducts a fixed
//! meter and tempo: bar/beat/tick advancement per process cycle, the
//! timebase callback's decisions, and the forwarding of beat boundaries.

pub mod rolling;
pub mod timebase;
pub mod timekeeper;
pub mod session;
