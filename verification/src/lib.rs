//! A metaball renderer: a small fixed set of point sources ("balls") induces a
//! scalar field over a pixel grid, and each frame the whole buffer is recomputed
//! by thresholding the field and blending the sources' colors per pixel.
//!
//! All arithmetic is fixed-point over the integers: field values carry the
//! scale factor `field::FIELD_SCALE`, the orbit trigonometry the scale factor
//! `trig::TRIG_SCALE`, and time deltas and blend weights are given in
//! thousandths.

pub mod engine;
pub mod field;
pub mod geom;
pub mod laws;
pub mod pixel;
pub mod trig;
