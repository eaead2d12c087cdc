//! The installation's signing identity: established once, published once, and
//! never replaced.
pub mod names;
pub mod records;
pub mod certificates;
pub mod bootstrap;
pub mod distribute;
pub mod api;
pub mod laws;
