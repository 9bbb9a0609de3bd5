//! Procedural terrain over fixed-point arithmetic.
//!
//! A height field is synthesised from layered noise samples, quantised into
//! terraces with ramps and cliffs, and composed with a water level into four
//! raster channels. A second, independent generator marks the sites and the
//! diagram vertices of a river network on a raster of its own.
//!
//! Every scalar in this crate is an integer count of millionths (see
//! [`fixed::UNIT`]). The noise fields themselves are not part of the library:
//! it says at which points they are to be evaluated and takes the values
//! they gave.

pub mod bands;
pub mod config;
pub mod diag;
pub mod fixed;
pub mod ground;
pub mod rivers;
pub mod sampler;
pub mod terrace;
pub mod tile;
