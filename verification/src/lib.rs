//! A network-intelligence toolkit built on a verified packet engine.
//!
//! The engine models packets, computes Internet checksums, encodes and decodes
//! ICMP, TCP and UDP packets, hands out buffers from a fixed pool and decides
//! what the transport does with each probe and reply. The utilities around it
//! cover addresses, port lists, hardware addresses and traffic counters.

pub mod analytics;
pub mod builder;
pub mod bytes;
pub mod checksum;
pub mod clock;
pub mod correlation;
pub mod diagnostics;
pub mod engine;
pub mod error;
pub mod monitor;
pub mod optimizer;
pub mod packet;
pub mod parser;
pub mod plugins;
pub mod pool;
pub mod roundtrip;
pub mod scanner;
pub mod security;
pub mod text;
pub mod utils;
