//! Verified core of a Thread SRP client: byte-buffer carving, the
//! single-waiter change signal, the fixed-capacity service arena and the
//! activation protocol that guards them.

pub mod carve;
pub mod config;
pub mod context;
pub mod error;
pub mod nat64;
pub mod netdata;
pub mod paths;
pub mod signal;
pub mod srp;
pub mod text;
