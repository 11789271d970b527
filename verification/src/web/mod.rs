//! What the web dashboard decides: which link destinations stay live, and
//! the styling and layout of its panels.

pub mod markdown;
pub mod panels;
pub mod grid;
