//! A simulator of a small hardware memory cache: it decodes each address of a
//! trace, looks the block up under the chosen placement policy, installs it on a
//! miss, and counts hits, misses and evictions.
pub mod block;
pub mod policy;
pub mod cache;
pub mod simulation;
pub mod laws;
pub mod input;
