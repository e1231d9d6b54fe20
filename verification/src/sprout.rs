//! The earliest shape of a node, kept for its tests: a sprout holds a
//! mock data store and a passport, and nothing else yet.

pub mod data_storage;
pub mod passport;
pub mod sprout;
