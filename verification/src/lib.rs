//! A generational-index slot arena backing a small column-oriented
//! component store. See [`ecs`] for the arena itself and [`laws`] for the
//! proved arena-wide properties.

pub mod ecs;
pub mod laws;
