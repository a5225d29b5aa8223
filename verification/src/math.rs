//! Small numeric helpers.

pub mod avg;
