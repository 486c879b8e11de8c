//! Seriation of image rows and columns: permutation bookkeeping, raster
//! rearrangement, solver settings and the comparison views, with their
//! contracts.

pub mod application;
pub mod cli;
pub mod error;
pub mod gui;
pub mod image_ordering;
pub mod memetic;
pub mod neighbors;
pub mod permutation;
pub mod raster;
pub mod storage;
pub mod strip_distance;

pub use error::Error;
pub use permutation::validate_order;
