//! File systems.

pub mod fat;
