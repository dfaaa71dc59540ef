//! A minimal placement-driver core: a timestamp oracle that hands out
//! strictly increasing logical timestamps, and a codec that carries a
//! closed taxonomy of domain errors across an RPC boundary inside a
//! generic code-plus-message transport status.

pub mod error;
pub mod server;
