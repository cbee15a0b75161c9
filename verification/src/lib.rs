//! Histogram equalization for images: global equalization, adaptive
//! histogram equalization (AHE) and contrast-limited adaptive histogram
//! equalization (CLAHE), working on the intensity channel of a chosen
//! color space.

pub mod clahe_engine;
pub mod declarations;
pub mod hist_equal;
pub mod hist_support;
pub mod layout;
pub mod packing;
pub mod pipeline;
pub mod ycgco;
