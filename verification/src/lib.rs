//! Prepares a raster image for a resin printer with a 3840 x 2400 exposure
//! mask: the image is reduced to one intensity sample per pixel and placed
//! on the black canvas at a chosen corner, and preview thumbnails are turned
//! into the little-endian run stream of the machine file.

pub mod canvas;
pub mod error;
pub mod intensity;
pub mod preview;
pub mod layer;
