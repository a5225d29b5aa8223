//! The admin service's models and rules.

pub mod model;
pub mod nodes;
pub mod password;
