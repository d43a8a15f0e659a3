//! Deterministic, structure-aware generation of valid test fixtures for a
//! network-gateway configuration/status schema, together with a
//! precision-critical duration-normalization utility.
//!
//! Every generator draws from an injected bounded random source (the
//! [`driver::Driver`] trait) and turns the draw sequence into domain records
//! that satisfy their structural invariants by construction: unique CIDR
//! blocks, unique host addresses, valid enum ranges, skewed counters and
//! well-formed nested records.

pub mod cycle;
pub mod device;
pub mod driver;
pub mod duration;
pub mod expose;
pub mod ifaddr;
pub mod ipv4;
pub mod ipv6;
pub mod power;
pub mod schema;
pub mod status;
pub mod support;
pub mod text;
