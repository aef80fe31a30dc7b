//! A user-agent classification engine: an immutable rule database of pattern
//! groups (bots, clients, devices, operating systems), a first-match-wins
//! matcher, a classifier that checks the families in a fixed precedence
//! order, and a bounded least-recently-used result cache in front of it.

pub mod detection;
pub mod pattern;
pub mod rules;
pub mod matcher;
pub mod cache;
pub mod engine;
pub mod laws;
pub mod defaults;
pub mod headers;
