//! Core logic of an on-device traffic-interception service.
//!
//! The crate owns the decisions of a virtual-network-device tunnel client:
//! classifying outgoing packets, filtering them by process owner or by
//! destination domain, tracking session health and traffic counters, and the
//! pure parts of a subnet scanner, a latency probe, and an energy-savings
//! report. All socket, device and host-runtime plumbing lives outside the
//! crate and feeds plain values into the functions here.

pub mod classify;
pub mod status;
pub mod packet;
pub mod config;
pub mod filter;
pub mod shield;
pub mod tunnel;
pub mod stats;
pub mod scan;
pub mod socktable;
pub mod energy;
