//! Core of a peer-to-peer transport substrate: the deadline primitive that
//! bounds every transport operation, a backend-agnostic endpoint /
//! connection / channel model with uniform close semantics, and the
//! bootstrap discovery protocol peers use to find each other before any
//! mesh connectivity exists.

pub mod bootstrap;
pub mod codec;
pub mod error;
pub mod timeout;
pub mod tx;
pub mod types;
