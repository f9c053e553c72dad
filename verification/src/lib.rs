//! A one-dimensional Kalman-filter tracking simulation over exact rational
//! arithmetic, with a verified geometry stage that turns the simulated trace
//! into pixel shapes and a thin trusted layer that hands those shapes to an
//! SVG builder and rasterizer.

pub mod estimator;
pub mod raster;
pub mod rat;
pub mod render;
pub mod simulator;
pub mod svg_doc;
