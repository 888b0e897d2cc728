//! Conveniences for simulations.

pub mod yaml;
