//! Core state-update model of a practice-tracking application: goals with
//! associated exercises, an owned model, and an event-driven update
//! function with a derived read-only projection for presentation.
pub mod events;
pub mod goal;
pub mod model;
