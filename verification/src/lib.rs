//! A windowed rendering-and-export pipeline, modelled and verified.
//!
//! The library coordinates the stateful resources of a single
//! render-then-export pass: a window with its graphics context, a drawing
//! surface (CPU raster or GPU render target), a canvas with a stack of
//! affine transforms, and the flush / snapshot / encode tail of the
//! pipeline.  Coordinates are fixed-point integers in thousandths of a
//! pixel, so that every geometric statement is exact.

pub mod error;
pub mod canvas;
pub mod geometry;
pub mod pipeline;
pub mod scene;
pub mod snapshot;
pub mod surface;
pub mod transform;
pub mod window;
