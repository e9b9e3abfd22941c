//! A simplified content-delivery network: edge nodes with finite storage
//! capacity, a least-loaded placement policy under capacity constraints, and
//! a resolution path that locates content across nodes. A small latency
//! simulator models the network delay of each operation.

pub mod engine;
pub mod latency;

pub use engine::{Content, EdgeNode, Request, PlacementOutcome, CDN};
pub use latency::NetworkSimulator;
