//! Metadata resolution for Lightning sites.

pub mod builder;
pub mod config;
pub mod item;
pub mod names;
pub mod page;
pub mod raw;
pub mod report;
pub mod text;
pub mod time;
