//! What one item of a site carries.

pub mod guarantees;
pub mod taxonomy;
