//! The decisions of the experiment window and its image viewer, the window's
//! text fields, and the viewer's pixel comparisons.

pub mod app;
pub mod comparison;
pub mod controls_state;
pub mod viewer;
