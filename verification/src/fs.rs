//! File stores.

pub mod fat16;
