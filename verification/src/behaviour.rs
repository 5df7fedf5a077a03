//! Behaviours of entities that no player steers.

pub mod follow;
