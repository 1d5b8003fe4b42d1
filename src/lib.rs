//! Editor-side bookkeeping for a long-lived external code formatter:
//! document buffers, the sentinel-framed pipe protocol, the lifecycle of each
//! formatter process, and a pool of processes keyed by working directory.

pub mod backend;
pub mod buffer;
pub mod frame;
pub mod pool;
pub mod session;
