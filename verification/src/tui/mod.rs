//! The terminal dashboard: its view model, and the panel text, styling and
//! placement drawn from it.

pub mod model;
pub mod view;
