//! Membership lifecycle rules for a gym: members, trainers, plans and the
//! subscriptions that bind a member to a plan for a window of time.

pub mod config;
pub mod date;
pub mod error;
pub mod laws;
pub mod models;
pub mod records;
pub mod services;
pub mod text;
