//! Maintenance and scheduling logic for short-lived web state kept in an
//! ordered key-value store: login sessions, carts, view history, a gated page
//! cache and a delay-driven row cache.
//!
//! The library never talks to the store. Each operation is computed here as
//! the list of store commands to perform, or as one step of a worker loop, and
//! the caller carries the commands out and hands the replies back.

pub mod articles;
pub mod command;
pub mod gate;
pub mod inventory;
pub mod keys;
pub mod laws;
pub mod model;
pub mod order;
pub mod params;
pub mod reaper;
pub mod schedule;
pub mod session;
pub mod text;
