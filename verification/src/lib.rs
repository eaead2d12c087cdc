//! Decisions of the restore drill: what a drill may touch, how its evidence is
//! judged, and what it reports.
#![allow(unused_imports)]

pub mod text;
pub mod order;
pub mod namemap;
pub mod textmap;
pub mod cli;
pub mod clock;
pub mod drill;
pub mod encoding;
pub mod engine_bin;
pub mod exit;
pub mod identity;
pub mod ids;
