//! What the plans of the library achieve on the store they are meant for.

pub mod eviction;
pub mod pages;
pub mod plans;
pub mod refresh;
pub mod sessions;
