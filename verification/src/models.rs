//! The entities of the gym and the rules that each field obeys.

pub mod member;
pub mod plan;
pub mod subscription;
pub mod trainer;
