//! A simulated workload-processing network: client "observatories" generate
//! work units each round and fan them out, by a fixed weighted scheme, to
//! servers that process work at a fixed rate and acknowledge completion.
//!
//! The crate verifies the coordination core: the packet/link addressing
//! fabric, the rate-proportional service-time arithmetic, the client round
//! protocol, the fail-fast construction of a whole simulation, and the
//! key/value configuration grammar. Real channels sit behind a few trusted
//! wrappers over `std::sync::mpsc`; thread spawning and sleeping are left to
//! the embedding program.

pub mod client;
pub mod config;
pub mod net;
pub mod ratio;
pub mod server;
pub mod sim;
